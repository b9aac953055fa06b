//! Character-level text helpers: whitespace trimming, splitting on a
//! separator, prefix tests, and the Unicode lowercase mapping of std.
use vstd::prelude::*;

verus! {

/// The Unicode `White_Space` property, which `char::is_whitespace` and
/// `str::trim` use.
pub open spec fn is_white(c: char) -> bool {
    let u = c as u32;
    ||| 0x09 <= u <= 0x0d
    ||| u == 0x20
    ||| u == 0x85
    ||| u == 0xa0
    ||| u == 0x1680
    ||| 0x2000 <= u <= 0x200a
    ||| u == 0x2028
    ||| u == 0x2029
    ||| u == 0x202f
    ||| u == 0x205f
    ||| u == 0x3000
}

/// `s` without its leading and trailing whitespace.
pub open spec fn trimmed(s: Seq<char>) -> Seq<char>
    decreases s.len(),
{
    if s.len() > 0 && is_white(s[0]) {
        trimmed(s.drop_first())
    } else if s.len() > 0 && is_white(s.last()) {
        trimmed(s.drop_last())
    } else {
        s
    }
}

/// The pieces of `s` between occurrences of `sep`, as `str::split` yields
/// them: one more piece than there are separators.
pub open spec fn split_on(s: Seq<char>, sep: char) -> Seq<Seq<char>>
    decreases s.len(),
{
    if s.len() == 0 {
        seq![Seq::<char>::empty()]
    } else {
        let rest = split_on(s.drop_last(), sep);
        if s.last() == sep {
            rest.push(Seq::<char>::empty())
        } else {
            rest.update(rest.len() - 1, rest.last().push(s.last()))
        }
    }
}

/// Whether `s` begins with `p`.
pub open spec fn starts_with(s: Seq<char>, p: Seq<char>) -> bool {
    p.len() <= s.len() && s.take(p.len() as int) == p
}

/// Calls `String::from_iter` (std) on the characters of `v`: the string holds
/// exactly those characters, in order.
#[verifier::external_body]
pub fn string_from_chars(v: &Vec<char>) -> (r: String)
    ensures
        r@ == v@,
{
    v.iter().collect()
}

/// Appends the characters of `s` to `v`.
pub fn append_str(v: &mut Vec<char>, s: &str)
    ensures
        final(v)@ == old(v)@ + s@,
{
    let w = chars_of(s);
    append_chars(v, &w);
}

/// Appends the characters of `w` to `v`.
pub fn append_chars(v: &mut Vec<char>, w: &Vec<char>)
    ensures
        final(v)@ == old(v)@ + w@,
{
    let mut k: usize = 0;
    while k < w.len()
        invariant
            k <= w@.len(),
            v@ == old(v)@ + w@.take(k as int),
        decreases w@.len() - k,
    {
        v.push(w[k]);
        assert(old(v)@ + w@.take(k as int + 1) =~= (old(v)@ + w@.take(k as int)).push(w@[k as int]));
        k = k + 1;
    }
    assert(w@.take(w@.len() as int) =~= w@);
}

/// What `str::to_lowercase` returns for the text `s`.
pub uninterp spec fn unicode_lowercase(s: Seq<char>) -> Seq<char>;

/// Whether every character of `s` is ASCII.
pub open spec fn is_ascii_text(s: Seq<char>) -> bool {
    forall|i: int| 0 <= i < s.len() ==> (#[trigger] s[i] as u32) < 0x80
}

/// The ASCII lowercase form of a character: `A`-`Z` become `a`-`z`, every
/// other character stays.
pub open spec fn ascii_lower_char(c: char) -> char {
    if 'A' <= c <= 'Z' {
        ((c as u32) + 32) as char
    } else {
        c
    }
}

/// The ASCII lowercase form of a text.
pub open spec fn ascii_lowercase(s: Seq<char>) -> Seq<char> {
    s.map_values(|c: char| ascii_lower_char(c))
}

/// Calls `str::to_lowercase` (std) on the text held in `v`. The result is
/// believed to be `unicode_lowercase(v@)`, a function of the text alone, and,
/// for ASCII text, its ASCII lowercase form: std's `str::to_ascii_lowercase`
/// documents that `to_lowercase` lowercases ASCII characters too, and the
/// Unicode lowercase mapping of an ASCII character is its ASCII one. The
/// Unicode case tables for other characters are not stated.
#[verifier::external_body]
pub fn to_lowercase(v: &Vec<char>) -> (r: Vec<char>)
    ensures
        r@ == unicode_lowercase(v@),
        is_ascii_text(v@) ==> r@ == ascii_lowercase(v@),
{
    let s: String = v.iter().collect();
    s.to_lowercase().chars().collect()
}

proof fn lemma_trimmed_ends(s: Seq<char>)
    ensures
        trimmed(s).len() > 0 ==> !is_white(trimmed(s)[0]) && !is_white(trimmed(s).last()),
    decreases s.len(),
{
    if s.len() > 0 && is_white(s[0]) {
        lemma_trimmed_ends(s.drop_first());
    } else if s.len() > 0 && is_white(s.last()) {
        lemma_trimmed_ends(s.drop_last());
    }
}

/// Every piece of ASCII text is ASCII text.
pub proof fn lemma_ascii_subrange(s: Seq<char>, i: int, j: int)
    requires
        is_ascii_text(s),
        0 <= i <= j <= s.len(),
    ensures
        is_ascii_text(s.subrange(i, j)),
{
    assert forall|k: int| 0 <= k < j - i implies (#[trigger] s.subrange(i, j)[k] as u32) < 0x80 by {
        assert(s.subrange(i, j)[k] == s[i + k]);
    }
}

/// Trimming keeps ASCII text ASCII.
pub proof fn lemma_trimmed_ascii(s: Seq<char>)
    requires
        is_ascii_text(s),
    ensures
        is_ascii_text(trimmed(s)),
    decreases s.len(),
{
    if s.len() > 0 && is_white(s[0]) {
        lemma_ascii_subrange(s, 1, s.len() as int);
        assert(s.drop_first() =~= s.subrange(1, s.len() as int));
        lemma_trimmed_ascii(s.drop_first());
    } else if s.len() > 0 && is_white(s.last()) {
        lemma_ascii_subrange(s, 0, s.len() - 1);
        assert(s.drop_last() =~= s.subrange(0, s.len() - 1));
        lemma_trimmed_ascii(s.drop_last());
    }
}

/// Lowercasing does not change whether a character is whitespace.
pub proof fn lemma_lower_white(c: char)
    ensures
        is_white(ascii_lower_char(c)) == is_white(c),
{
}

/// Trimming and ASCII lowercasing can be done in either order.
pub proof fn lemma_trimmed_lower(s: Seq<char>)
    ensures
        trimmed(ascii_lowercase(s)) == ascii_lowercase(trimmed(s)),
    decreases s.len(),
{
    let l = ascii_lowercase(s);
    if s.len() > 0 {
        lemma_lower_white(s[0]);
        lemma_lower_white(s.last());
        assert(l[0] == ascii_lower_char(s[0]));
        assert(l.last() == ascii_lower_char(s.last()));
    }
    if s.len() > 0 && is_white(s[0]) {
        assert(l.drop_first() =~= ascii_lowercase(s.drop_first()));
        lemma_trimmed_lower(s.drop_first());
    } else if s.len() > 0 && is_white(s.last()) {
        assert(l.drop_last() =~= ascii_lowercase(s.drop_last()));
        lemma_trimmed_lower(s.drop_last());
    }
}

/// ASCII lowercasing twice lowercases no more than once.
pub proof fn lemma_lower_idempotent(s: Seq<char>)
    ensures
        ascii_lowercase(ascii_lowercase(s)) == ascii_lowercase(s),
{
    assert(ascii_lowercase(ascii_lowercase(s)) =~= ascii_lowercase(s));
}

/// ASCII lowercasing keeps ASCII text ASCII.
pub proof fn lemma_lower_ascii(s: Seq<char>)
    requires
        is_ascii_text(s),
    ensures
        is_ascii_text(ascii_lowercase(s)),
{
    assert forall|k: int| 0 <= k < s.len() implies (#[trigger] ascii_lowercase(s)[k] as u32) < 0x80 by {
        assert((s[k] as u32) < 0x80);
    }
}

/// ASCII lowercasing a tail is the tail of the lowercased text.
pub proof fn lemma_lower_skip(s: Seq<char>, n: int)
    requires
        0 <= n <= s.len(),
    ensures
        ascii_lowercase(s).skip(n) == ascii_lowercase(s.skip(n)),
{
    assert(ascii_lowercase(s).skip(n) =~= ascii_lowercase(s.skip(n)));
}

/// `s` without its trailing whitespace.
pub open spec fn trimmed_end(s: Seq<char>) -> Seq<char>
    decreases s.len(),
{
    if s.len() > 0 && is_white(s.last()) {
        trimmed_end(s.drop_last())
    } else {
        s
    }
}

/// Trailing whitespace does not change the trimmed text.
pub proof fn lemma_trimmed_drop_last_white(s: Seq<char>)
    requires
        s.len() > 0,
        is_white(s.last()),
    ensures
        trimmed(s) == trimmed(s.drop_last()),
    decreases s.len(),
{
    if is_white(s[0]) {
        if s.len() == 1 {
            assert(s.drop_first() =~= s.drop_last());
        } else {
            let d = s.drop_first();
            assert(d.last() == s.last());
            lemma_trimmed_drop_last_white(d);
            assert(d.drop_last() =~= s.drop_last().drop_first());
            assert(s.drop_last()[0] == s[0]);
        }
    }
}

/// The trimmed form of a text that begins and ends with non-whitespace
/// followed by `k`: the text, then `k` without its trailing whitespace.
pub proof fn lemma_trimmed_after_head(p: Seq<char>, k: Seq<char>)
    requires
        p.len() > 0,
        !is_white(p[0]),
        !is_white(p.last()),
    ensures
        trimmed(p + k) == p + trimmed_end(k),
    decreases k.len(),
{
    let s = p + k;
    assert(s[0] == p[0]);
    if k.len() > 0 && is_white(k.last()) {
        assert(s.last() == k.last());
        assert(s.drop_last() =~= p + k.drop_last());
        lemma_trimmed_after_head(p, k.drop_last());
    } else if k.len() > 0 {
        assert(s.last() == k.last());
    } else {
        assert(s =~= p);
        assert(s.last() == p.last());
    }
}

/// Trimming a text without its trailing whitespace trims it.
pub proof fn lemma_trimmed_trimmed_end(k: Seq<char>)
    ensures
        trimmed(trimmed_end(k)) == trimmed(k),
    decreases k.len(),
{
    if k.len() > 0 && is_white(k.last()) {
        lemma_trimmed_trimmed_end(k.drop_last());
        lemma_trimmed_drop_last_white(k);
    }
}

/// `trimmed_end(k)` is a leading piece of `k`.
pub proof fn lemma_trimmed_end_prefix(k: Seq<char>)
    ensures
        trimmed_end(k).len() <= k.len(),
        trimmed_end(k) == k.take(trimmed_end(k).len() as int),
    decreases k.len(),
{
    if k.len() > 0 && is_white(k.last()) {
        lemma_trimmed_end_prefix(k.drop_last());
        assert(k.drop_last().take(trimmed_end(k).len() as int) =~= k.take(trimmed_end(k).len() as int));
    } else {
        assert(k.take(k.len() as int) =~= k);
    }
}

/// Trimming twice trims no more than trimming once.
pub proof fn lemma_trimmed_idempotent(s: Seq<char>)
    ensures
        trimmed(trimmed(s)) == trimmed(s),
{
    lemma_trimmed_ends(s);
}

/// Whether `c` is whitespace in the sense of `char::is_whitespace`.
pub fn is_whitespace(c: char) -> (r: bool)
    ensures
        r == is_white(c),
{
    let u: u32 = c as u32;
    (0x09 <= u && u <= 0x0d) || u == 0x20 || u == 0x85 || u == 0xa0 || u == 0x1680 || (0x2000
        <= u && u <= 0x200a) || u == 0x2028 || u == 0x2029 || u == 0x202f || u == 0x205f || u
        == 0x3000
}

/// The characters of `s`, in order.
pub fn chars_of(s: &str) -> (v: Vec<char>)
    ensures
        v@ == s@,
{
    let mut v: Vec<char> = Vec::new();
    for c in it: s.chars()
        invariant
            it.seq() == s@,
            v@ == it.seq().take(it.index() as int),
    {
        v.push(c);
    }
    v
}


proof fn lemma_trim_front(s: Seq<char>, i: int, j: int)
    requires
        0 <= i < j <= s.len(),
        is_white(s[i]),
    ensures
        trimmed(s.subrange(i, j)) == trimmed(s.subrange(i + 1, j)),
{
    let sub = s.subrange(i, j);
    assert(sub.drop_first() =~= s.subrange(i + 1, j));
}

proof fn lemma_trim_back(s: Seq<char>, i: int, j: int)
    requires
        0 <= i < j <= s.len(),
        !is_white(s[i]),
        is_white(s[j - 1]),
    ensures
        trimmed(s.subrange(i, j)) == trimmed(s.subrange(i, j - 1)),
{
    let sub = s.subrange(i, j);
    assert(sub.drop_last() =~= s.subrange(i, j - 1));
}

/// `v` without leading and trailing whitespace, as `str::trim` returns it.
pub fn trim(v: &Vec<char>) -> (r: Vec<char>)
    ensures
        r@ == trimmed(v@),
{
    let n: usize = v.len();
    let mut i: usize = 0;
    assert(v@.subrange(0, n as int) =~= v@);
    while i < n && is_whitespace(v[i])
        invariant
            i <= n == v@.len(),
            trimmed(v@) == trimmed(v@.subrange(i as int, n as int)),
        decreases n - i,
    {
        proof {
            lemma_trim_front(v@, i as int, n as int);
        }
        i = i + 1;
    }
    let mut j: usize = n;
    while j > i && is_whitespace(v[j - 1])
        invariant
            i <= j <= n == v@.len(),
            i < n ==> !is_white(v@[i as int]),
            trimmed(v@) == trimmed(v@.subrange(i as int, j as int)),
        decreases j - i,
    {
        proof {
            lemma_trim_back(v@, i as int, j as int);
        }
        j = j - 1;
    }
    let mut r: Vec<char> = Vec::new();
    let mut k: usize = i;
    while k < j
        invariant
            i <= k <= j <= n == v@.len(),
            r@ == v@.subrange(i as int, k as int),
        decreases j - k,
    {
        r.push(v[k]);
        k = k + 1;
    }
    proof {
        let sub = v@.subrange(i as int, j as int);
        if sub.len() > 0 {
            assert(sub[0] == v@[i as int]);
            assert(sub.last() == v@[j - 1]);
        }
    }
    r
}

proof fn lemma_split_step(s: Seq<char>, k: int, sep: char)
    requires
        0 <= k < s.len(),
    ensures
        split_on(s.take(k + 1), sep) == ({
            let rest = split_on(s.take(k), sep);
            if s[k] == sep {
                rest.push(Seq::<char>::empty())
            } else {
                rest.update(rest.len() - 1, rest.last().push(s[k]))
            }
        }),
{
    let t = s.take(k + 1);
    assert(t.drop_last() =~= s.take(k));
}

/// The views of a list of character vectors.
pub open spec fn views(v: Seq<Vec<char>>) -> Seq<Seq<char>> {
    v.map_values(|p: Vec<char>| p@)
}

/// The pieces of `v` between occurrences of `sep`, as `str::split` yields them.
pub fn split(v: &Vec<char>, sep: char) -> (r: Vec<Vec<char>>)
    ensures
        views(r@) == split_on(v@, sep),
{
    let mut done: Vec<Vec<char>> = Vec::new();
    let mut cur: Vec<char> = Vec::new();
    let n: usize = v.len();
    let mut k: usize = 0;
    assert(v@.take(0) =~= Seq::<char>::empty());
    assert(views(done@).push(cur@) =~= split_on(v@.take(0), sep));
    while k < n
        invariant
            k <= n == v@.len(),
            views(done@).push(cur@) == split_on(v@.take(k as int), sep),
        decreases n - k,
    {
        proof {
            lemma_split_step(v@, k as int, sep);
        }
        let c: char = v[k];
        if c == sep {
            let ghost before = views(done@).push(cur@);
            let piece = cur;
            done.push(piece);
            cur = Vec::new();
            assert(views(done@).push(cur@) =~= before.push(Seq::<char>::empty()));
        } else {
            let ghost before = views(done@).push(cur@);
            cur.push(c);
            assert(views(done@).push(cur@) =~= before.update(
                before.len() - 1,
                before.last().push(c),
            ));
        }
        k = k + 1;
    }
    assert(v@.take(n as int) =~= v@);
    done.push(cur);
    assert(views(done@) =~= split_on(v@, sep));
    done
}

/// Whether `c` occurs in `v`.
pub fn contains_char(v: &Vec<char>, c: char) -> (r: bool)
    ensures
        r == v@.contains(c),
{
    let mut k: usize = 0;
    while k < v.len()
        invariant
            k <= v@.len(),
            forall|m: int| 0 <= m < k ==> v@[m] != c,
        decreases v@.len() - k,
    {
        if v[k] == c {
            return true;
        }
        k = k + 1;
    }
    false
}

/// Whether `v` holds exactly the characters of `s`.
pub fn eq_str(v: &Vec<char>, s: &str) -> (r: bool)
    ensures
        r == (v@ == s@),
{
    let w = chars_of(s);
    if v.len() != w.len() {
        return false;
    }
    let mut k: usize = 0;
    while k < v.len()
        invariant
            k <= v@.len() == w@.len(),
            w@ == s@,
            forall|m: int| 0 <= m < k ==> v@[m] == w@[m],
        decreases v@.len() - k,
    {
        if v[k] != w[k] {
            return false;
        }
        k = k + 1;
    }
    assert(v@ =~= w@);
    true
}

/// Whether `v` begins with the characters of `p`; on success also the
/// number of characters of `p`.
pub fn starts_with_str(v: &Vec<char>, p: &str) -> (r: (bool, usize))
    ensures
        r.0 == starts_with(v@, p@),
        r.1 == p@.len(),
{
    let w = chars_of(p);
    if w.len() > v.len() {
        return (false, w.len());
    }
    let mut k: usize = 0;
    while k < w.len()
        invariant
            k <= w@.len() <= v@.len(),
            w@ == p@,
            forall|m: int| 0 <= m < k ==> v@[m] == w@[m],
        decreases w@.len() - k,
    {
        if v[k] != w[k] {
            assert(v@.take(w@.len() as int)[k as int] != w@[k as int]);
            return (false, w.len());
        }
        k = k + 1;
    }
    assert(v@.take(w@.len() as int) =~= w@);
    (true, w.len())
}

/// The characters of `v` from position `n` on.
pub fn skip_chars(v: &Vec<char>, n: usize) -> (r: Vec<char>)
    requires
        n <= v@.len(),
    ensures
        r@ == v@.skip(n as int),
{
    let mut r: Vec<char> = Vec::new();
    let mut k: usize = n;
    while k < v.len()
        invariant
            n <= k <= v@.len(),
            r@ == v@.subrange(n as int, k as int),
        decreases v@.len() - k,
    {
        r.push(v[k]);
        k = k + 1;
    }
    r
}

} // verus!
