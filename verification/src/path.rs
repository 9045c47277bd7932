//! Paths as text: segments separated by `/`.
//!
//! A path is read the way a Unix shell reads it. Empty segments and `.`
//! segments stand for nothing, so `a//b/./` names the same thing as `a/b`.

use vstd::prelude::*;

verus! {

/// Where the last segment of `p` begins: just past its last separator, or at 0
/// where it has none.
pub open spec fn last_start(p: Seq<char>) -> int
    decreases p.len(),
{
    if p.len() == 0 {
        0
    } else if p.last() == '/' {
        p.len() as int
    } else {
        last_start(p.drop_last())
    }
}

/// The text `.`.
pub open spec fn dot() -> Seq<char> {
    seq!['.']
}

/// The text `..`.
pub open spec fn dot_dot() -> Seq<char> {
    seq!['.', '.']
}

/// A segment that stands for nothing: the empty one and `.`.
pub open spec fn is_skipped(segment: Seq<char>) -> bool {
    segment.len() == 0 || segment =~= dot()
}

/// A name that an entry of a directory can bear: not empty, free of
/// separators, and neither `.` nor `..`.
pub open spec fn is_plain_name(name: Seq<char>) -> bool {
    &&& name.len() > 0
    &&& !name.contains('/')
    &&& !(name =~= dot())
    &&& !(name =~= dot_dot())
}

/// The final component of `p`: its last segment that stands for something,
/// unless that segment is `..`.
pub open spec fn file_name_of(p: Seq<char>) -> Option<Seq<char>>
    decreases p.len(),
{
    let start = last_start(p);
    let segment = p.skip(start);
    if !(0 <= start <= p.len()) {
        None
    } else if is_skipped(segment) {
        if start == 0 {
            None
        } else {
            file_name_of(p.take(start - 1))
        }
    } else if segment =~= dot_dot() {
        None
    } else {
        Some(segment)
    }
}

/// `rel` placed under `base`: `rel` itself where it starts at the root or
/// `base` is empty, otherwise the two with exactly one separator between them.
pub open spec fn joined(base: Seq<char>, rel: Seq<char>) -> Seq<char> {
    if rel.len() > 0 && rel[0] == '/' {
        rel
    } else if base.len() == 0 || base.last() == '/' {
        base + rel
    } else {
        base + seq!['/'] + rel
    }
}

/// A relative path that cannot leave the directory it is read in: it is not
/// empty and each of its segments is a plain name.
pub open spec fn stays_inside(p: Seq<char>) -> bool
    decreases p.len(),
{
    let start = last_start(p);
    &&& p.len() > 0
    &&& 0 <= start <= p.len()
    &&& is_plain_name(p.skip(start))
    &&& (start > 0 ==> stays_inside(p.take(start - 1)))
}

/// What each of `v` reads as.
pub open spec fn texts(v: Seq<String>) -> Seq<Seq<char>> {
    v.map_values(|s: String| s@)
}

/// `last_start` stays within the text, nothing from it onwards is a separator,
/// and a separator stands right before it unless it is 0.
pub proof fn lemma_last_start(p: Seq<char>)
    ensures
        0 <= last_start(p) <= p.len(),
        forall|i: int| last_start(p) <= i < p.len() ==> p[i] != '/',
        last_start(p) > 0 ==> p[last_start(p) - 1] == '/',
    decreases p.len(),
{
    if p.len() > 0 && p.last() != '/' {
        let q = p.drop_last();
        lemma_last_start(q);
        assert forall|i: int| last_start(p) <= i < p.len() implies p[i] != '/' by {
            if i < q.len() {
                assert(p[i] == q[i]);
            }
        }
        if last_start(p) > 0 {
            assert(p[last_start(p) - 1] == q[last_start(q) - 1]);
        }
    }
}

/// The one position that is a segment boundary with no separator after it is
/// where the last segment begins.
pub proof fn lemma_last_start_is(p: Seq<char>, start: int)
    requires
        0 <= start <= p.len(),
        forall|i: int| start <= i < p.len() ==> p[i] != '/',
        start > 0 ==> p[start - 1] == '/',
    ensures
        last_start(p) == start,
    decreases p.len(),
{
    if p.len() == 0 {
    } else if p.last() == '/' {
        assert(p[p.len() - 1] == '/');
    } else {
        lemma_last_start_is(p.drop_last(), start);
    }
}

/// Whatever `file_name_of` finds is a plain name.
pub proof fn lemma_file_name_is_plain(p: Seq<char>)
    ensures
        file_name_of(p) matches Some(name) ==> is_plain_name(name),
    decreases p.len(),
{
    lemma_last_start(p);
    let start = last_start(p);
    let segment = p.skip(start);
    if is_skipped(segment) {
        if start > 0 {
            lemma_file_name_is_plain(p.take(start - 1));
        }
    } else if !(segment =~= dot_dot()) {
        assert forall|i: int| 0 <= i < segment.len() implies segment[i] != '/' by {
            assert(segment[i] == p[start + i]);
        }
    }
}

/// A text that ends in a plain name, alone or after a separator, has that name
/// as its final component.
pub proof fn lemma_file_name_of_suffix(p: Seq<char>, name: Seq<char>)
    requires
        is_plain_name(name),
        p.len() >= name.len(),
        p.skip(p.len() - name.len()) =~= name,
        p.len() > name.len() ==> p[p.len() - name.len() - 1] == '/',
    ensures
        file_name_of(p) == Some(name),
{
    let start = p.len() - name.len();
    assert forall|i: int| start <= i < p.len() implies p[i] != '/' by {
        assert(p[i] == name[i - start]);
        assert(name.contains(name[i - start]));
    }
    lemma_last_start_is(p, start);
}

/// Under any base, a plain name stays the final component.
pub proof fn lemma_file_name_of_joined(base: Seq<char>, name: Seq<char>)
    requires
        is_plain_name(name),
    ensures
        file_name_of(joined(base, name)) == Some(name),
{
    assert(name.contains(name[0]));
    let p = joined(base, name);
    assert(p.skip(p.len() - name.len()) =~= name);
    lemma_file_name_of_suffix(p, name);
}

/// A path made by placing a plain name under a path that stays inside, or
/// under nothing, stays inside.
pub proof fn lemma_joined_stays_inside(base: Seq<char>, name: Seq<char>)
    requires
        is_plain_name(name),
        base.len() == 0 || stays_inside(base),
    ensures
        stays_inside(joined(base, name)),
        joined(base, name) == if base.len() == 0 {
            name
        } else {
            base + seq!['/'] + name
        },
{
    assert(name.contains(name[0]));
    let p = joined(base, name);
    let start = p.len() - name.len();
    if base.len() > 0 {
        lemma_last_start(base);
        let b = last_start(base);
        assert(base.skip(b).len() > 0);
        assert(base.last() == base.skip(b).last());
        assert(base.skip(b).contains(base.last()));
        assert(p =~= base + seq!['/'] + name);
    } else {
        assert(p =~= name);
    }
    assert(p.skip(start) =~= name);
    assert forall|i: int| start <= i < p.len() implies p[i] != '/' by {
        assert(p[i] == name[i - start]);
        assert(name.contains(name[i - start]));
    }
    lemma_last_start_is(p, start);
    if start > 0 {
        assert(p.take(start - 1) =~= base);
    }
}

/// The characters of `s`, one by one.
pub fn chars_of(s: &str) -> (v: Vec<char>)
    ensures
        v@ == s@,
{
    let mut v: Vec<char> = Vec::new();
    for c in it: s.chars()
        invariant
            v@ == it.seq().take(it.index()),
    {
        v.push(c);
    }
    v
}

/// Whether two texts are the same, character by character.
pub fn same_text(a: &str, b: &str) -> (r: bool)
    ensures
        r == (a@ == b@),
{
    let x = chars_of(a);
    let y = chars_of(b);
    if x.len() != y.len() {
        return false;
    }
    let mut i: usize = 0;
    while i < x.len()
        invariant
            x@ == a@,
            y@ == b@,
            x.len() == y.len(),
            i <= x.len(),
            forall|j: int| 0 <= j < i ==> x@[j] == y@[j],
        decreases x.len() - i,
    {
        if x[i] != y[i] {
            return false;
        }
        i += 1;
    }
    assert(x@ =~= y@);
    true
}

/// Where the segment that ends at `end` begins.
fn segment_start(chars: &Vec<char>, end: usize) -> (start: usize)
    requires
        end <= chars.len(),
    ensures
        start <= end,
        start as int == last_start(chars@.take(end as int)),
{
    let mut start: usize = end;
    while start > 0 && chars[start - 1] != '/'
        invariant
            start <= end <= chars.len(),
            forall|i: int| start <= i < end ==> chars@[i] != '/',
        decreases start,
    {
        start -= 1;
    }
    proof {
        lemma_last_start_is(chars@.take(end as int), start as int);
    }
    start
}

/// Whether the characters from `start` to `end` are `.` or nothing at all.
fn segment_is_skipped(chars: &Vec<char>, start: usize, end: usize) -> (r: bool)
    requires
        start <= end <= chars.len(),
    ensures
        r == is_skipped(chars@.subrange(start as int, end as int)),
{
    let r = end == start || (end - start == 1 && chars[start] == '.');
    proof {
        let segment = chars@.subrange(start as int, end as int);
        if end - start == 1 {
            assert(segment[0] == chars@[start as int]);
        }
    }
    r
}

/// Whether the characters from `start` to `end` are `..`.
fn segment_is_dot_dot(chars: &Vec<char>, start: usize, end: usize) -> (r: bool)
    requires
        start <= end <= chars.len(),
    ensures
        r == (chars@.subrange(start as int, end as int) =~= dot_dot()),
{
    let r = end - start == 2 && chars[start] == '.' && chars[start + 1] == '.';
    proof {
        let segment = chars@.subrange(start as int, end as int);
        if end - start == 2 {
            assert(segment[0] == chars@[start as int]);
            assert(segment[1] == chars@[start + 1]);
        }
    }
    r
}

/// Whether no character from `start` to `end` is a separator and the
/// characters are neither `.` nor `..` nor nothing at all.
fn segment_is_plain(chars: &Vec<char>, start: usize, end: usize) -> (r: bool)
    requires
        start <= end <= chars.len(),
        forall|i: int| start <= i < end ==> chars@[i] != '/',
    ensures
        r == is_plain_name(chars@.subrange(start as int, end as int)),
{
    let skipped = segment_is_skipped(chars, start, end);
    let parent = segment_is_dot_dot(chars, start, end);
    proof {
        let segment = chars@.subrange(start as int, end as int);
        if segment.contains('/') {
            let i = choose|i: int| 0 <= i < segment.len() && segment[i] == '/';
            assert(chars@[start + i] == '/');
        }
    }
    !skipped && !parent
}

/// The final component of `path`, the way `basename` reads it: trailing
/// separators and `.` segments are passed over, and a path that ends in `..`,
/// in the root or in nothing has none.
pub fn file_name(path: &str) -> (r: Option<String>)
    ensures
        match r {
            Some(name) => file_name_of(path@) == Some(name@),
            None => file_name_of(path@) is None,
        },
{
    let chars = chars_of(path);
    let mut end: usize = chars.len();
    assert(path@.take(end as int) =~= path@);
    loop
        invariant
            chars@ == path@,
            end <= chars.len(),
            file_name_of(path@) == file_name_of(path@.take(end as int)),
        decreases end,
    {
        let start = segment_start(&chars, end);
        let ghost rest = path@.take(end as int);
        assert(rest.skip(start as int) =~= chars@.subrange(start as int, end as int));
        if segment_is_skipped(&chars, start, end) {
            if start == 0 {
                return None;
            }
            assert(rest.take(start - 1) =~= path@.take(start - 1));
            end = start - 1;
        } else if segment_is_dot_dot(&chars, start, end) {
            return None;
        } else {
            let name = path.substring_char(start, end);
            return Some(name.to_owned());
        }
    }
}

/// Places `rel` under `base`.
pub fn join(base: &str, rel: &str) -> (r: String)
    ensures
        r@ == joined(base@, rel@),
{
    let b = chars_of(base);
    let r = chars_of(rel);
    if r.len() > 0 && r[0] == '/' {
        rel.to_owned()
    } else if b.len() == 0 || b[b.len() - 1] == '/' {
        base.to_owned().concat(rel)
    } else {
        proof {
            reveal_strlit("/");
            assert("/"@ =~= seq!['/']);
        }
        base.to_owned().concat("/").concat(rel)
    }
}

/// Whether `path` is a relative path that cannot leave the directory it is
/// read in.
pub fn is_inside(path: &str) -> (r: bool)
    ensures
        r == stays_inside(path@),
{
    let chars = chars_of(path);
    let mut end: usize = chars.len();
    assert(path@.take(end as int) =~= path@);
    loop
        invariant
            chars@ == path@,
            end <= chars.len(),
            stays_inside(path@) == stays_inside(path@.take(end as int)),
        decreases end,
    {
        if end == 0 {
            return false;
        }
        let start = segment_start(&chars, end);
        let ghost rest = path@.take(end as int);
        proof {
            lemma_last_start(rest);
            assert(rest.skip(start as int) =~= chars@.subrange(start as int, end as int));
            assert forall|i: int| start <= i < end implies chars@[i] != '/' by {
                assert(rest[i] == chars@[i]);
            }
        }
        if !segment_is_plain(&chars, start, end) {
            return false;
        }
        if start == 0 {
            return true;
        }
        assert(rest.take(start - 1) =~= path@.take(start - 1));
        end = start - 1;
    }
}

} // verus!
