//! Character-level helpers shared by the parsers.

use vstd::prelude::*;

verus! {

/// The Unicode `White_Space` property, as `char::is_whitespace` decides it.
pub open spec fn is_space(c: char) -> bool {
    let n = c as u32;
    ||| (0x09 <= n && n <= 0x0d)
    ||| n == 0x20
    ||| n == 0x85
    ||| n == 0xa0
    ||| n == 0x1680
    ||| (0x2000 <= n && n <= 0x200a)
    ||| n == 0x2028
    ||| n == 0x2029
    ||| n == 0x202f
    ||| n == 0x205f
    ||| n == 0x3000
}

/// Decides `is_space`.
pub fn char_is_space(c: char) -> (b: bool)
    ensures
        b == is_space(c),
{
    let n = c as u32;
    (0x09 <= n && n <= 0x0d) || n == 0x20 || n == 0x85 || n == 0xa0 || n == 0x1680 || (0x2000
        <= n && n <= 0x200a) || n == 0x2028 || n == 0x2029 || n == 0x202f || n == 0x205f || n
        == 0x3000
}

/// The characters of `s`, in order.
pub fn chars_of(s: &str) -> (v: Vec<char>)
    ensures
        v@ == s@,
{
    let mut v: Vec<char> = Vec::new();
    broadcast use vstd::string::group_string_axioms;
    for c in it: s.chars()
        invariant
            it.seq() == s@,
            v@ == s@.take(it.index() as int),
    {
        v.push(c);
    }
    v
}

/// Appends one character to a string.
#[verifier::external_body]
pub fn push_char(s: &mut String, c: char)
    ensures
        final(s)@ == old(s)@.push(c),
{
    s.push(c);
}

/// A string holding exactly the characters of `v`.
pub fn string_of(v: &[char]) -> (s: String)
    ensures
        s@ == v@,
{
    let mut s = String::new();
    for i in 0..v.len()
        invariant
            s@ == v@.take(i as int),
    {
        push_char(&mut s, v[i]);
        assert(v@.take(i + 1) == v@.take(i as int).push(v@[i as int]));
    }
    assert(v@.take(v@.len() as int) == v@);
    s
}

/// A copy of `s`.
pub fn copy_string(s: &String) -> (c: String)
    ensures
        c@ == s@,
{
    s.clone()
}

/// The view of each string of a sequence.
pub open spec fn views(v: Seq<String>) -> Seq<Seq<char>> {
    v.map_values(|w: String| w@)
}

/// A copy of a vector of strings.
pub fn copy_strings(v: &Vec<String>) -> (c: Vec<String>)
    ensures
        views(c@) == views(v@),
{
    let mut c: Vec<String> = Vec::new();
    for i in 0..v.len()
        invariant
            c@.len() == i,
            views(c@) == views(v@).take(i as int),
    {
        let ghost before = c@;
        let w = copy_string(&v[i]);
        c.push(w);
        assert forall|j: int| 0 <= j <= i implies views(c@)[j] == views(v@)[j] by {
            if j < i {
                assert(views(before)[j] == views(v@).take(i as int)[j]);
            }
        }
        assert(views(c@) =~= views(v@).take(i + 1));
    }
    assert(views(v@).take(v@.len() as int) == views(v@));
    c
}

/// `s` without its leading white space.
pub open spec fn trim_start(s: Seq<char>) -> Seq<char>
    decreases s.len(),
{
    if s.len() > 0 && is_space(s[0]) {
        trim_start(s.drop_first())
    } else {
        s
    }
}

/// `s` without its trailing white space.
pub open spec fn trim_end(s: Seq<char>) -> Seq<char>
    decreases s.len(),
{
    if s.len() > 0 && is_space(s.last()) {
        trim_end(s.drop_last())
    } else {
        s
    }
}

/// `s` without its leading and trailing white space.
pub open spec fn trim(s: Seq<char>) -> Seq<char> {
    trim_end(trim_start(s))
}

/// The pieces of `s` between runs of white space, where the piece being
/// read so far is `cur`.
pub open spec fn split_from(s: Seq<char>, cur: Seq<char>) -> Seq<Seq<char>>
    decreases s.len(),
{
    if s.len() == 0 {
        if cur.len() > 0 {
            seq![cur]
        } else {
            Seq::empty()
        }
    } else if is_space(s[0]) {
        (if cur.len() > 0 {
            seq![cur]
        } else {
            Seq::empty()
        }) + split_from(s.drop_first(), Seq::empty())
    } else {
        split_from(s.drop_first(), cur.push(s[0]))
    }
}

/// The nonempty pieces of `s` that white space separates, in order.
pub open spec fn split_whitespace(s: Seq<char>) -> Seq<Seq<char>> {
    split_from(s, Seq::empty())
}

/// The bounds `(a, b)` such that `s[a..b]` is `s` trimmed.
pub fn trim_bounds(s: &Vec<char>) -> (r: (usize, usize))
    ensures
        r.0 <= r.1 <= s@.len(),
        s@.subrange(r.0 as int, r.1 as int) == trim(s@),
{
    let mut a: usize = 0;
    assert(s@.skip(0) =~= s@);
    while a < s.len() && char_is_space(s[a])
        invariant
            a <= s@.len(),
            trim_start(s@) == trim_start(s@.skip(a as int)),
        decreases s@.len() - a,
    {
        assert(s@.skip(a as int).drop_first() =~= s@.skip(a + 1));
        a = a + 1;
    }
    let ghost t = s@.skip(a as int);
    proof {
        if a < s@.len() {
            assert(t[0] == s@[a as int]);
        }
        assert(trim_start(t) == t);
    }
    let mut b: usize = s.len();
    assert(t =~= s@.subrange(a as int, b as int));
    while b > a && char_is_space(s[b - 1])
        invariant
            a <= b <= s@.len(),
            t == s@.skip(a as int),
            trim_end(t) == trim_end(s@.subrange(a as int, b as int)),
        decreases b,
    {
        assert(s@.subrange(a as int, b as int).drop_last() =~= s@.subrange(a as int, b - 1));
        assert(s@.subrange(a as int, b as int).last() == s@[b - 1]);
        b = b - 1;
    }
    proof {
        let u = s@.subrange(a as int, b as int);
        if b > a {
            assert(u.last() == s@[b - 1]);
        }
        assert(trim_end(u) == u);
    }
    (a, b)
}

/// The pieces of `s[a..b]` that white space separates.
pub fn split_range(s: &Vec<char>, a: usize, b: usize) -> (r: Vec<Vec<char>>)
    requires
        a <= b <= s@.len(),
    ensures
        r@.map_values(|w: Vec<char>| w@) == split_whitespace(s@.subrange(a as int, b as int)),
{
    let ghost whole = s@.subrange(a as int, b as int);
    let mut out: Vec<Vec<char>> = Vec::new();
    let mut cur: Vec<char> = Vec::new();
    let mut i = a;
    assert(whole.skip(0) =~= whole);
    while i < b
        invariant
            a <= i <= b <= s@.len(),
            whole == s@.subrange(a as int, b as int),
            split_whitespace(whole) == out@.map_values(|w: Vec<char>| w@) + split_from(
                whole.skip(i - a),
                cur@,
            ),
        decreases b - i,
    {
        let ghost rest = whole.skip(i - a);
        let ghost before = out@.map_values(|w: Vec<char>| w@);
        assert(rest[0] == s@[i as int]);
        assert(rest.drop_first() =~= whole.skip(i + 1 - a));
        if char_is_space(s[i]) {
            if cur.len() > 0 {
                let ghost cv = cur@;
                let done = cur;
                out.push(done);
                cur = Vec::new();
                assert(out@.map_values(|w: Vec<char>| w@) =~= before.push(cv));
                assert(before + (seq![cv] + split_from(whole.skip(i + 1 - a), Seq::empty()))
                    =~= out@.map_values(|w: Vec<char>| w@) + split_from(
                    whole.skip(i + 1 - a),
                    cur@,
                ));
            } else {
                assert(cur@ =~= Seq::<char>::empty());
                assert(Seq::<Seq<char>>::empty() + split_from(whole.skip(i + 1 - a), Seq::empty())
                    =~= split_from(whole.skip(i + 1 - a), Seq::empty()));
            }
        } else {
            cur.push(s[i]);
        }
        i = i + 1;
    }
    let ghost before = out@.map_values(|w: Vec<char>| w@);
    assert(whole.skip(i - a).len() == 0);
    if cur.len() > 0 {
        let ghost cv = cur@;
        out.push(cur);
        assert(out@.map_values(|w: Vec<char>| w@) =~= before.push(cv));
        assert(before + seq![cv] =~= out@.map_values(|w: Vec<char>| w@));
    } else {
        assert(before + Seq::empty() =~= before);
    }
    out
}

/// Whether `a` and `b` hold the same characters.
pub fn same_text(a: &str, b: &str) -> (r: bool)
    ensures
        r == (a@ == b@),
{
    let x = chars_of(a);
    let y = chars_of(b);
    if x.len() != y.len() {
        return false;
    }
    for i in 0..x.len()
        invariant
            x@ == a@,
            y@ == b@,
            x@.len() == y@.len(),
            forall|j: int| 0 <= j < i ==> x@[j] == y@[j],
    {
        if x[i] != y[i] {
            return false;
        }
    }
    assert(x@ =~= y@);
    true
}

/// Whether `s` starts with the character `c`.
pub fn starts_with_char(s: &str, c: char) -> (r: bool)
    ensures
        r == (s@.len() > 0 && s@[0] == c),
{
    let x = chars_of(s);
    x.len() > 0 && x[0] == c
}

/// The first line of `s`: the text before the first newline (without a
/// carriage return right before it), or all of `s`.
pub open spec fn first_line(s: Seq<char>) -> Seq<char> {
    let k = line_end(s);
    if k < s.len() && k > 0 && s[k - 1] == '\r' {
        s.take(k - 1)
    } else {
        s.take(k as int)
    }
}

/// The index of the first newline of `s`, or its length.
pub open spec fn line_end(s: Seq<char>) -> nat
    decreases s.len(),
{
    if s.len() == 0 || s[0] == '\n' {
        0
    } else {
        1 + line_end(s.drop_first())
    }
}

/// The first line of `s`.
pub fn first_line_of(s: &str) -> (r: String)
    ensures
        r@ == first_line(s@),
{
    let x = chars_of(s);
    let mut k: usize = 0;
    assert(x@.skip(0) =~= x@);
    while k < x.len() && x[k] != '\n'
        invariant
            k <= x@.len(),
            x@ == s@,
            line_end(x@) == k + line_end(x@.skip(k as int)),
        decreases x@.len() - k,
    {
        assert(x@.skip(k as int).drop_first() =~= x@.skip(k + 1));
        k = k + 1;
    }
    assert(line_end(x@.skip(k as int)) == 0) by {
        if k < x@.len() {
            assert(x@.skip(k as int)[0] == x@[k as int]);
        }
    }
    let end = if k < x.len() && k > 0 && x[k - 1] == '\r' {
        k - 1
    } else {
        k
    };
    let mut v: Vec<char> = Vec::new();
    for i in 0..end
        invariant
            end <= x@.len(),
            v@ == x@.take(i as int),
    {
        v.push(x[i]);
        assert(x@.take(i + 1) =~= x@.take(i as int).push(x@[i as int]));
    }
    string_of(v.as_slice())
}

} // verus!
