//! Verified text utilities: substring containment, suffix tests, decimal
//! rendering, character search, line splitting, capture-group substitution and
//! duplicate-free accumulation. Everything here is plain character logic with
//! exact specifications; the rest of the engine states its contracts over
//! these spec functions.
use vstd::prelude::*;
use vstd::string::StrSliceExecFns;
use vstd::string::StringExecFns;

verus! {

/// `needle` occurs in `hay` starting at position `i`.
pub open spec fn contains_at(hay: Seq<char>, needle: Seq<char>, i: int) -> bool {
    0 <= i && i + needle.len() <= hay.len() && hay.subrange(i, i + needle.len() as int)
        == needle
}

/// `needle` occurs somewhere in `hay`.
pub open spec fn contains_seq(hay: Seq<char>, needle: Seq<char>) -> bool {
    exists|i: int| contains_at(hay, needle, i)
}

/// `hay` ends with `needle`.
pub open spec fn ends_with_seq(hay: Seq<char>, needle: Seq<char>) -> bool {
    needle.len() <= hay.len() && hay.subrange(
        hay.len() - needle.len(),
        hay.len() as int,
    ) == needle
}

fn match_at(hay: &str, needle: &str, i: usize, hl: usize, nl: usize) -> (r: bool)
    requires
        hl == hay@.len(),
        nl == needle@.len(),
        i + nl <= hl,
    ensures
        r == contains_at(hay@, needle@, i as int),
{
    let mut j: usize = 0;
    while j < nl
        invariant
            hl == hay@.len(),
            nl == needle@.len(),
            i + nl <= hl,
            j <= nl,
            forall|k: int| 0 <= k < j ==> hay@[i + k] == needle@[k],
        decreases nl - j,
    {
        if hay.get_char(i + j) != needle.get_char(j) {
            proof {
                let sub = hay@.subrange(i as int, i + nl as int);
                assert(sub[j as int] == hay@[i + j]);
                assert(sub != needle@);
            }
            return false;
        }
        j += 1;
    }
    proof {
        assert(hay@.subrange(i as int, i + nl as int) =~= needle@);
    }
    true
}

/// Substring containment over whole strings; the word-matching policy of the
/// engine is built on this test.
pub fn contains_str(hay: &str, needle: &str) -> (r: bool)
    ensures
        r == contains_seq(hay@, needle@),
{
    let hl = hay.unicode_len();
    let nl = needle.unicode_len();
    if nl > hl {
        proof {
            assert(forall|i: int| !contains_at(hay@, needle@, i));
        }
        return false;
    }
    if nl == 0 {
        proof {
            assert(hay@.subrange(0, 0) =~= needle@);
            assert(contains_at(hay@, needle@, 0));
        }
        return true;
    }
    let mut i: usize = 0;
    while i <= hl - nl
        invariant
            hl == hay@.len(),
            nl == needle@.len(),
            1 <= nl <= hl,
            i <= hl - nl + 1,
            forall|k: int| 0 <= k < i ==> !contains_at(hay@, needle@, k),
        decreases hl - nl - i + 1,
    {
        if match_at(hay, needle, i, hl, nl) {
            return true;
        }
        i += 1;
    }
    proof {
        assert forall|k: int| !contains_at(hay@, needle@, k) by {
            if 0 <= k < i {
            }
        }
    }
    false
}

/// Suffix test over whole strings; used to recognize favicon probes.
pub fn ends_with_str(hay: &str, needle: &str) -> (r: bool)
    ensures
        r == ends_with_seq(hay@, needle@),
{
    let hl = hay.unicode_len();
    let nl = needle.unicode_len();
    if nl > hl {
        return false;
    }
    match_at(hay, needle, hl - nl, hl, nl)
}

/// The character for one decimal digit.
pub open spec fn digit_char(d: nat) -> char {
    if d == 0 {
        '0'
    } else if d == 1 {
        '1'
    } else if d == 2 {
        '2'
    } else if d == 3 {
        '3'
    } else if d == 4 {
        '4'
    } else if d == 5 {
        '5'
    } else if d == 6 {
        '6'
    } else if d == 7 {
        '7'
    } else if d == 8 {
        '8'
    } else {
        '9'
    }
}

/// The decimal rendering of a natural number, most significant digit first.
pub open spec fn dec_digits(n: nat) -> Seq<char>
    decreases n,
{
    if n < 10 {
        seq![digit_char(n)]
    } else {
        dec_digits(n / 10).push(digit_char(n % 10))
    }
}

fn digit_str(d: u8) -> (r: &'static str)
    requires
        d < 10,
    ensures
        r@ =~= seq![digit_char(d as nat)],
{
    proof {
        reveal_strlit("0");
        reveal_strlit("1");
        reveal_strlit("2");
        reveal_strlit("3");
        reveal_strlit("4");
        reveal_strlit("5");
        reveal_strlit("6");
        reveal_strlit("7");
        reveal_strlit("8");
        reveal_strlit("9");
    }
    match d {
        0 => "0",
        1 => "1",
        2 => "2",
        3 => "3",
        4 => "4",
        5 => "5",
        6 => "6",
        7 => "7",
        8 => "8",
        _ => "9",
    }
}

/// Renders a number in decimal; status codes and positional extractor keys
/// are produced with it.
pub fn u64_to_dec(n: u64) -> (r: String)
    ensures
        r@ == dec_digits(n as nat),
    decreases n,
{
    if n < 10 {
        let r = String::from_str(digit_str(n as u8));
        proof {
            assert(r@ =~= dec_digits(n as nat));
        }
        r
    } else {
        let mut s = u64_to_dec(n / 10);
        s.append(digit_str((n % 10) as u8));
        proof {
            assert(s@ =~= dec_digits(n as nat));
        }
        s
    }
}

/// Index of the first occurrence of `c` in `s`; the length of `s` when `c`
/// does not occur.
pub open spec fn first_idx(s: Seq<char>, c: char) -> nat
    decreases s.len(),
{
    if s.len() == 0 {
        0
    } else if s[0] == c {
        0
    } else {
        1 + first_idx(s.skip(1), c)
    }
}

pub proof fn lemma_first_idx(s: Seq<char>, c: char)
    ensures
        first_idx(s, c) <= s.len(),
        first_idx(s, c) < s.len() ==> s[first_idx(s, c) as int] == c,
        forall|k: int| 0 <= k < first_idx(s, c) ==> s[k] != c,
    decreases s.len(),
{
    if s.len() == 0 {
    } else if s[0] == c {
    } else {
        lemma_first_idx(s.skip(1), c);
        assert forall|k: int| 0 <= k < first_idx(s, c) implies s[k] != c by {
            if k > 0 {
                assert(s.skip(1)[k - 1] == s[k]);
            }
        }
    }
}

proof fn lemma_first_idx_at(s: Seq<char>, c: char, i: int)
    requires
        0 <= i <= s.len(),
        forall|k: int| 0 <= k < i ==> s[k] != c,
        i < s.len() ==> s[i] == c,
    ensures
        first_idx(s, c) == if i < s.len() {
            i as nat
        } else {
            s.len()
        },
    decreases s.len(),
{
    if s.len() == 0 {
    } else if i == 0 {
        if s.len() > 0 && s[0] != c {
            lemma_first_idx(s, c);
        }
    } else {
        assert(s[0] != c);
        lemma_first_idx_at(s.skip(1), c, i - 1);
    }
}

/// Scan for `c` from position `from`.
pub fn find_char_from(s: &str, c: char, from: usize) -> (r: usize)
    requires
        from <= s@.len(),
    ensures
        r == from + first_idx(s@.skip(from as int), c),
        r <= s@.len(),
{
    let sl = s.unicode_len();
    let mut i: usize = from;
    while i < sl
        invariant
            from <= i <= sl,
            sl == s@.len(),
            forall|k: int| from <= k < i ==> s@[k] != c,
        decreases sl - i,
    {
        if s.get_char(i) == c {
            proof {
                assert forall|k: int| 0 <= k < i - from implies s@.skip(from as int)[k] != c by {
                    assert(s@.skip(from as int)[k] == s@[from + k]);
                }
                assert(s@.skip(from as int)[i - from] == s@[i as int]);
                lemma_first_idx_at(s@.skip(from as int), c, i - from);
            }
            return i;
        }
        i += 1;
    }
    proof {
        assert forall|k: int| 0 <= k < s@.skip(from as int).len() implies s@.skip(from as int)[k]
            != c by {
            assert(s@.skip(from as int)[k] == s@[from + k]);
        }
        lemma_first_idx_at(s@.skip(from as int), c, s@.len() - from);
    }
    sl
}

/// The chunks of `s` between occurrences of `c`.
pub open spec fn split_seq(s: Seq<char>, c: char) -> Seq<Seq<char>>
    decreases s.len(),
{
    let i = first_idx(s, c);
    if i >= s.len() {
        seq![s]
    } else {
        seq![s.take(i as int)] + split_seq(s.skip(i as int + 1), c)
    }
}

/// Splits text into its lines; the header part of a target is tokenized with
/// it, one word per header line.
pub fn split_lines(s: &str) -> (r: Vec<String>)
    ensures
        r.deep_view() == split_seq(s@, '\n'),
{
    let sl = s.unicode_len();
    let mut acc: Vec<String> = Vec::new();
    let mut pos: usize = 0;
    proof {
        assert(s@.skip(0) =~= s@);
        assert(acc.deep_view() =~= Seq::<Seq<char>>::empty());
        assert(acc.deep_view() + split_seq(s@, '\n') =~= split_seq(s@, '\n'));
    }
    loop
        invariant
            pos <= sl,
            sl == s@.len(),
            split_seq(s@, '\n') =~= acc.deep_view() + split_seq(s@.skip(pos as int), '\n'),
        decreases sl - pos,
    {
        let j = find_char_from(s, '\n', pos);
        let chunk = String::from_str(s.substring_char(pos, j));
        proof {
            let rest = s@.skip(pos as int);
            lemma_first_idx(rest, '\n');
            assert(rest.take(first_idx(rest, '\n') as int) =~= s@.subrange(
                pos as int,
                j as int,
            ));
        }
        if j < sl {
            acc.push(chunk);
            proof {
                let rest = s@.skip(pos as int);
                assert(rest.skip(first_idx(rest, '\n') as int + 1) =~= s@.skip(j + 1));
                assert(acc.deep_view() =~= acc.deep_view().subrange(
                    0,
                    acc.deep_view().len() - 1,
                ) + seq![chunk@]);
                assert(split_seq(s@, '\n') =~= acc.deep_view() + split_seq(
                    s@.skip(j + 1),
                    '\n',
                ));
            }
            pos = j + 1;
        } else {
            acc.push(chunk);
            proof {
                let rest = s@.skip(pos as int);
                assert(first_idx(rest, '\n') >= rest.len());
                assert(rest.take(rest.len() as int) =~= rest);
                assert(split_seq(rest, '\n') =~= seq![chunk@]);
                assert(acc.deep_view() =~= acc.deep_view().subrange(
                    0,
                    acc.deep_view().len() - 1,
                ) + seq![chunk@]);
                assert(split_seq(s@, '\n') =~= acc.deep_view());
            }
            return acc;
        }
    }
}

/// `true` for the digits that name a capture group.
pub open spec fn is_group_digit(ch: char) -> bool {
    ch == '1' || ch == '2' || ch == '3' || ch == '4' || ch == '5' || ch == '6' || ch == '7'
        || ch == '8' || ch == '9'
}

/// Numeric value of a group digit.
pub open spec fn digit_val(ch: char) -> nat {
    if ch == '1' {
        1
    } else if ch == '2' {
        2
    } else if ch == '3' {
        3
    } else if ch == '4' {
        4
    } else if ch == '5' {
        5
    } else if ch == '6' {
        6
    } else if ch == '7' {
        7
    } else if ch == '8' {
        8
    } else {
        9
    }
}

/// The capture group named by `$d`, or empty when there is no such group.
pub open spec fn group_at(caps: Seq<Seq<char>>, d: nat) -> Seq<char> {
    if 1 <= d && d <= caps.len() {
        caps[d - 1]
    } else {
        Seq::empty()
    }
}

/// Replaces each `$1`..`$9` in `t` by the corresponding capture group; every
/// other character is kept as it stands.
pub open spec fn subst(t: Seq<char>, caps: Seq<Seq<char>>) -> Seq<char>
    decreases t.len(),
{
    if t.len() == 0 {
        Seq::empty()
    } else if t.len() >= 2 && t[0] == '$' && is_group_digit(t[1]) {
        group_at(caps, digit_val(t[1])) + subst(t.skip(2), caps)
    } else {
        seq![t[0]] + subst(t.skip(1), caps)
    }
}

/// Expands a version template against the capture groups of a regex match.
pub fn substitute(t: &str, caps: &Vec<String>) -> (r: String)
    ensures
        r@ == subst(t@, caps.deep_view()),
{
    let tl = t.unicode_len();
    let mut r = String::new();
    let mut i: usize = 0;
    proof {
        assert(t@.skip(0) =~= t@);
        assert(r@ + subst(t@, caps.deep_view()) =~= subst(t@, caps.deep_view()));
    }
    while i < tl
        invariant
            i <= tl,
            tl == t@.len(),
            subst(t@, caps.deep_view()) =~= r@ + subst(t@.skip(i as int), caps.deep_view()),
        decreases tl - i,
    {
        let ghost rest = t@.skip(i as int);
        let c = t.get_char(i);
        let mut step: usize = 1;
        if c == '$' && i + 1 < tl {
            let d = t.get_char(i + 1);
            if d == '1' || d == '2' || d == '3' || d == '4' || d == '5' || d == '6' || d == '7'
                || d == '8' || d == '9' {
                let dv: usize = if d == '1' {
                    1
                } else if d == '2' {
                    2
                } else if d == '3' {
                    3
                } else if d == '4' {
                    4
                } else if d == '5' {
                    5
                } else if d == '6' {
                    6
                } else if d == '7' {
                    7
                } else if d == '8' {
                    8
                } else {
                    9
                };
                proof {
                    assert(rest[0] == t@[i as int]);
                    assert(rest[1] == t@[i + 1]);
                }
                if dv <= caps.len() {
                    r.append(caps[dv - 1].as_str());
                } else {
                }
                step = 2;
                proof {
                    assert(rest.skip(2) =~= t@.skip(i + 2));
                    assert(group_at(caps.deep_view(), digit_val(t@[i + 1])) == if 1 <= dv
                        && dv <= caps.deep_view().len() {
                        caps.deep_view()[dv - 1]
                    } else {
                        Seq::<char>::empty()
                    });
                    assert(subst(t@, caps.deep_view()) =~= r@ + subst(
                        t@.skip(i + 2),
                        caps.deep_view(),
                    ));
                }
            } else {
                r.append(t.substring_char(i, i + 1));
                proof {
                    assert(rest[0] == t@[i as int]);
                    assert(rest[1] == t@[i + 1]);
                    assert(t@.subrange(i as int, i + 1) =~= seq![t@[i as int]]);
                    assert(rest.skip(1) =~= t@.skip(i + 1));
                    assert(subst(t@, caps.deep_view()) =~= r@ + subst(
                        t@.skip(i + 1),
                        caps.deep_view(),
                    ));
                }
            }
        } else {
            r.append(t.substring_char(i, i + 1));
            proof {
                assert(rest[0] == t@[i as int]);
                assert(t@.subrange(i as int, i + 1) =~= seq![t@[i as int]]);
                assert(rest.skip(1) =~= t@.skip(i + 1));
                if rest.len() >= 2 && rest[0] == '$' && is_group_digit(rest[1]) {
                    assert(rest[1] == t@[i + 1]);
                    assert(false);
                }
                assert(subst(t@, caps.deep_view()) =~= r@ + subst(
                    t@.skip(i + 1),
                    caps.deep_view(),
                ));
            }
        }
        i += step;
    }
    proof {
        assert(t@.skip(i as int) =~= Seq::<char>::empty());
        assert(subst(t@, caps.deep_view()) =~= r@);
    }
    r
}

/// Membership of a string in a list, by text.
pub fn vec_contains_string(v: &Vec<String>, s: &String) -> (r: bool)
    ensures
        r == v.deep_view().contains(s@),
{
    let mut i: usize = 0;
    while i < v.len()
        invariant
            i <= v.len(),
            forall|k: int| 0 <= k < i ==> v.deep_view()[k] != s@,
        decreases v.len() - i,
    {
        if v[i] == *s {
            proof {
                assert(v.deep_view()[i as int] == s@);
            }
            return true;
        }
        i += 1;
    }
    proof {
        assert forall|k: int| 0 <= k < v.deep_view().len() implies v.deep_view()[k] != s@ by {}
    }
    false
}

/// Adds `x` to a duplicate-free accumulation unless it is already present.
pub open spec fn dedup_insert(s: Seq<Seq<char>>, x: Seq<char>) -> Seq<Seq<char>> {
    if s.contains(x) {
        s
    } else {
        s.push(x)
    }
}

/// Folds `dedup_insert` over `xs`.
pub open spec fn dedup_all(base: Seq<Seq<char>>, xs: Seq<Seq<char>>) -> Seq<Seq<char>>
    decreases xs.len(),
{
    if xs.len() == 0 {
        base
    } else {
        dedup_all(dedup_insert(base, xs[0]), xs.skip(1))
    }
}

/// Set-style insertion: the stored list stays duplicate-free.
pub fn insert_unique(v: &mut Vec<String>, s: String)
    ensures
        final(v).deep_view() == dedup_insert(old(v).deep_view(), s@),
{
    if !vec_contains_string(v, &s) {
        let ghost pre = v.deep_view();
        v.push(s);
        proof {
            assert(v.deep_view() =~= pre.push(s@));
        }
    }
}

/// Set-style extension with every element of `xs` in order.
pub fn extend_unique(v: &mut Vec<String>, xs: Vec<String>)
    ensures
        final(v).deep_view() == dedup_all(old(v).deep_view(), xs.deep_view()),
{
    let mut i: usize = 0;
    proof {
        assert(xs.deep_view().skip(0) =~= xs.deep_view());
    }
    while i < xs.len()
        invariant
            i <= xs.len(),
            dedup_all(old(v).deep_view(), xs.deep_view()) == dedup_all(
                v.deep_view(),
                xs.deep_view().skip(i as int),
            ),
        decreases xs.len() - i,
    {
        let ghost rest = xs.deep_view().skip(i as int);
        let x = xs[i].clone();
        insert_unique(v, x);
        proof {
            assert(rest[0] == xs.deep_view()[i as int]);
            assert(rest.skip(1) =~= xs.deep_view().skip(i + 1));
        }
        i += 1;
    }
    proof {
        assert(xs.deep_view().skip(i as int) =~= Seq::<Seq<char>>::empty());
    }
}

/// Copies a list of strings.
pub fn clone_string_vec(v: &Vec<String>) -> (r: Vec<String>)
    ensures
        r@ =~= v@,
{
    let mut r: Vec<String> = Vec::new();
    let mut i: usize = 0;
    while i < v.len()
        invariant
            i <= v.len(),
            r@ =~= v@.take(i as int),
        decreases v.len() - i,
    {
        r.push(v[i].clone());
        proof {
            assert(r@ =~= v@.take(i + 1));
        }
        i += 1;
    }
    proof {
        assert(v@.take(v@.len() as int) =~= v@);
    }
    r
}

/// Copies a list of string pairs.
pub fn clone_string_pairs(v: &Vec<(String, String)>) -> (r: Vec<(String, String)>)
    ensures
        r@ =~= v@,
{
    let mut r: Vec<(String, String)> = Vec::new();
    let mut i: usize = 0;
    while i < v.len()
        invariant
            i <= v.len(),
            r@ =~= v@.take(i as int),
        decreases v.len() - i,
    {
        let p = (v[i].0.clone(), v[i].1.clone());
        r.push(p);
        proof {
            assert(r@ =~= v@.take(i + 1));
        }
        i += 1;
    }
    proof {
        assert(v@.take(v@.len() as int) =~= v@);
    }
    r
}

} // verus!
