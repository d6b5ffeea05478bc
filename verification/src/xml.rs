//! Minimal scanning of the timetable XML: locating `<s ...>...</s>` trip
//! elements, opening tags and double-quoted attribute values. Everything
//! works on the document's characters.

use vstd::prelude::*;

verus! {

/// `n` occurs in `h` starting at index `j`.
pub open spec fn occurs_at(h: Seq<char>, n: Seq<char>, j: int) -> bool {
    0 <= j && j + n.len() <= h.len() && h.subrange(j, j + n.len()) == n
}

/// The first index `>= i` at which `n` occurs in `h`.
pub open spec fn find_from(h: Seq<char>, n: Seq<char>, i: int) -> Option<int>
    decreases h.len() + 1 - i,
{
    if i < 0 || i + n.len() > h.len() {
        None
    } else if occurs_at(h, n, i) {
        Some(i)
    } else {
        find_from(h, n, i + 1)
    }
}

/// `str::find`: the first index at which `n` occurs in `h`.
pub open spec fn find(h: Seq<char>, n: Seq<char>) -> Option<int> {
    find_from(h, n, 0)
}

/// What `find_from` returns is an occurrence at or after `i`, and nothing
/// between `i` and it is one.
pub proof fn lemma_find_from(h: Seq<char>, n: Seq<char>, i: int)
    requires
        i >= 0,
    ensures
        find_from(h, n, i) matches Some(j) ==> i <= j && occurs_at(h, n, j) && forall|k: int|
            i <= k < j ==> !occurs_at(h, n, k),
        find_from(h, n, i) is None ==> forall|k: int| i <= k ==> !occurs_at(h, n, k),
    decreases h.len() + 1 - i,
{
    if i + n.len() > h.len() {
    } else if occurs_at(h, n, i) {
    } else {
        lemma_find_from(h, n, i + 1);
    }
}

/// Skipping positions known to hold no occurrence does not change the result.
pub proof fn lemma_find_skip(h: Seq<char>, n: Seq<char>, i: int, k: int)
    requires
        0 <= i <= k,
        forall|m: int| i <= m < k ==> !occurs_at(h, n, m),
    ensures
        find_from(h, n, i) == find_from(h, n, k),
    decreases k - i,
{
    if i < k {
        lemma_find_skip(h, n, i + 1, k);
    }
}

/// The first index `>= i` at which `n` occurs in `h` (`n` non-empty).
pub fn find_at(h: &Vec<char>, n: &Vec<char>, i: usize) -> (r: Option<usize>)
    requires
        n.len() > 0,
        i <= h.len(),
    ensures
        r matches Some(j) ==> find_from(h@, n@, i as int) == Some(j as int),
        r is None ==> find_from(h@, n@, i as int) is None,
{
    if n.len() > h.len() {
        return None;
    }
    let mut j = i;
    while j <= h.len() - n.len()
        invariant
            i <= j,
            j <= h.len(),
            n.len() <= h.len(),
            n.len() > 0,
            forall|m: int| i <= m < j ==> !occurs_at(h@, n@, m),
        decreases h.len() - j,
    {
        let mut k: usize = 0;
        while k < n.len() && h[j + k] == n[k]
            invariant
                k <= n.len(),
                j + n.len() <= h.len(),
                forall|t: int| 0 <= t < k ==> h@[j + t] == n@[t],
            decreases n.len() - k,
        {
            k = k + 1;
        }
        if k == n.len() {
            proof {
                assert(h@.subrange(j as int, j + n.len()) =~= n@);
                lemma_find_skip(h@, n@, i as int, j as int);
            }
            return Some(j);
        }
        proof {
            assert(h@.subrange(j as int, j + n.len())[k as int] != n@[k as int]);
        }
        j = j + 1;
    }
    proof {
        lemma_find_skip(h@, n@, i as int, j as int);
    }
    None
}

/// A copy of `h[lo..hi]`.
pub fn copy_range(h: &Vec<char>, lo: usize, hi: usize) -> (r: Vec<char>)
    requires
        lo <= hi <= h.len(),
    ensures
        r@ == h@.subrange(lo as int, hi as int),
{
    let mut r: Vec<char> = Vec::new();
    let mut i = lo;
    while i < hi
        invariant
            lo <= i <= hi <= h.len(),
            r@ == h@.subrange(lo as int, i as int),
        decreases hi - i,
    {
        r.push(h[i]);
        i = i + 1;
        assert(r@ =~= h@.subrange(lo as int, i as int));
    }
    r
}

/// Start and end of each `<s ...>...</s>` element at or after `pos`: each
/// starts at the next `<s ` and runs through the next `</s>` (or to the end
/// of the document when it is not closed); the next one is sought after it.
pub open spec fn block_ranges(x: Seq<char>, pos: int) -> Seq<(int, int)>
    decreases x.len() - pos,
{
    if pos < 0 {
        seq![]
    } else {
        match find_from(x, "<s "@, pos) {
            None => seq![],
            Some(st) => {
                let en = match find_from(x, "</s>"@, st) {
                    Some(e) => e + 4,
                    None => x.len() as int,
                };
                proof {
                    lemma_find_from(x, "<s "@, pos);
                    if st >= 0 {
                        lemma_find_from(x, "</s>"@, st);
                    }
                    reveal_strlit("</s>");
                }
                if en <= pos {
                    seq![]
                } else {
                    seq![(st, en)] + block_ranges(x, en)
                }
            },
        }
    }
}

/// The `<s ...>...</s>` trip elements of a document, in order.
pub open spec fn s_blocks(x: Seq<char>) -> Seq<Seq<char>> {
    block_ranges(x, 0).map_values(|r: (int, int)| x.subrange(r.0, r.1))
}

/// The `.0` of the pairs in `v`.
pub open spec fn range_view(v: Seq<(usize, usize)>) -> Seq<(int, int)> {
    v.map_values(|r: (usize, usize)| (r.0 as int, r.1 as int))
}

/// Ranges of all trip elements of `x`.
pub fn trip_ranges(x: &Vec<char>) -> (r: Vec<(usize, usize)>)
    ensures
        range_view(r@) == block_ranges(x@, 0),
        forall|i: int| 0 <= i < r.len() ==> (#[trigger] r@[i]).0 <= r@[i].1 <= x.len(),
{
    proof {
        reveal_strlit("<s ");
        reveal_strlit("</s>");
    }
    let open = crate::text::str_chars("<s ");
    let close = crate::text::str_chars("</s>");
    let mut r: Vec<(usize, usize)> = Vec::new();
    let mut pos: usize = 0;
    loop
        invariant
            pos <= x.len(),
            open@ == "<s "@,
            close@ == "</s>"@,
            open.len() == 3,
            close.len() == 4,
            range_view(r@) + block_ranges(x@, pos as int) == block_ranges(x@, 0),
            forall|i: int| 0 <= i < r.len() ==> (#[trigger] r@[i]).0 <= r@[i].1 <= x.len(),
        decreases x.len() - pos,
    {
        let ghost prev = r@;
        match find_at(x, &open, pos) {
            None => {
                assert(block_ranges(x@, pos as int) =~= seq![]);
                assert(range_view(r@) =~= block_ranges(x@, 0));
                return r;
            },
            Some(st) => {
                proof {
                    lemma_find_from(x@, "<s "@, pos as int);
                }
                let en: usize = match find_at(x, &close, st) {
                    Some(e) => {
                        proof {
                            lemma_find_from(x@, "</s>"@, st as int);
                        }
                        e + 4
                    },
                    None => x.len(),
                };
                assert(en > pos);
                r.push((st, en));
                assert(range_view(r@) =~= range_view(prev).push((st as int, en as int)));
                assert(block_ranges(x@, pos as int) =~= seq![(st as int, en as int)]
                    + block_ranges(x@, en as int));
                assert(range_view(r@) + block_ranges(x@, en as int) =~= range_view(prev)
                    + block_ranges(x@, pos as int));
                pos = en;
            },
        }
    }
}


/// The opening tag that starts at the first `prefix` in `b`, up to but
/// excluding the next `>`.
pub open spec fn open_tag(b: Seq<char>, prefix: Seq<char>) -> Option<Seq<char>> {
    match find(b, prefix) {
        None => None,
        Some(start) => match find_from(b, ">"@, start) {
            None => None,
            Some(end) => Some(b.subrange(start, end)),
        },
    }
}

/// ` name="` as searched for when reading an attribute.
pub open spec fn attr_needle(name: Seq<char>) -> Seq<char> {
    " "@ + name + "=\""@
}

/// The double-quoted value of attribute `name` in an opening tag.
pub open spec fn attr(tag: Seq<char>, name: Seq<char>) -> Option<Seq<char>> {
    let nd = attr_needle(name);
    match find(tag, nd) {
        None => None,
        Some(p) => match find_from(tag, "\""@, p + nd.len()) {
            None => None,
            Some(e) => Some(tag.subrange(p + nd.len(), e)),
        },
    }
}

/// The opening tag that starts at the first `prefix` in `b`.
pub fn find_open_tag(b: &Vec<char>, prefix: &str) -> (r: Option<Vec<char>>)
    requires
        prefix@.len() > 0,
    ensures
        r matches Some(t) ==> open_tag(b@, prefix@) == Some(t@),
        r is None ==> open_tag(b@, prefix@) is None,
{
    let p = crate::text::str_chars(prefix);
    let gt = crate::text::str_chars(">");
    proof {
        reveal_strlit(">");
    }
    if b.len() == 0 {
        proof {
            lemma_find_from(b@, p@, 0);
        }
        return None;
    }
    match find_at(b, &p, 0) {
        None => None,
        Some(start) => {
            proof {
                lemma_find_from(b@, p@, 0);
            }
            match find_at(b, &gt, start) {
                None => None,
                Some(end) => {
                    proof {
                        lemma_find_from(b@, gt@, start as int);
                    }
                    Some(copy_range(b, start, end))
                },
            }
        },
    }
}

/// The double-quoted value of attribute `name` in an opening tag.
pub fn find_attr(tag: &Vec<char>, name: &str) -> (r: Option<Vec<char>>)
    ensures
        r matches Some(t) ==> attr(tag@, name@) == Some(t@),
        r is None ==> attr(tag@, name@) is None,
{
    let mut nd: Vec<char> = Vec::new();
    nd.push(' ');
    let nm = crate::text::str_chars(name);
    let mut i: usize = 0;
    while i < nm.len()
        invariant
            i <= nm.len(),
            nd@ == seq![' '] + nm@.take(i as int),
        decreases nm.len() - i,
    {
        nd.push(nm[i]);
        i = i + 1;
        assert(nd@ =~= seq![' '] + nm@.take(i as int));
    }
    nd.push('=');
    nd.push('"');
    proof {
        reveal_strlit(" ");
        reveal_strlit("=\"");
        reveal_strlit("\"");
        assert(nm@.take(nm.len() as int) =~= nm@);
        assert(nd@ =~= attr_needle(name@));
    }
    let q = crate::text::str_chars("\"");
    if tag.len() == 0 {
        proof {
            lemma_find_from(tag@, nd@, 0);
        }
        return None;
    }
    match find_at(tag, &nd, 0) {
        None => None,
        Some(p) => {
            proof {
                lemma_find_from(tag@, nd@, 0);
            }
            let start = p + nd.len();
            match find_at(tag, &q, start) {
                None => None,
                Some(e) => {
                    proof {
                        lemma_find_from(tag@, q@, start as int);
                    }
                    Some(copy_range(tag, start, e))
                },
            }
        },
    }
}

/// `char::is_whitespace`: the Unicode `White_Space` characters.
pub open spec fn is_ws(c: char) -> bool {
    let u = c as u32;
    (0x9 <= u <= 0xD) || u == 0x20 || u == 0x85 || u == 0xA0 || u == 0x1680 || (0x2000 <= u
        <= 0x200A) || u == 0x2028 || u == 0x2029 || u == 0x202F || u == 0x205F || u == 0x3000
}

fn ws(c: char) -> (r: bool)
    ensures
        r == is_ws(c),
{
    let u = c as u32;
    (0x9 <= u && u <= 0xD) || u == 0x20 || u == 0x85 || u == 0xA0 || u == 0x1680 || (0x2000 <= u
        && u <= 0x200A) || u == 0x2028 || u == 0x2029 || u == 0x202F || u == 0x205F || u == 0x3000
}

/// `s` with every whitespace character removed (what collecting
/// `split_whitespace` into a `String` gives).
pub open spec fn strip_ws(s: Seq<char>) -> Seq<char>
    decreases s.len(),
{
    if s.len() == 0 {
        s
    } else if is_ws(s.last()) {
        strip_ws(s.drop_last())
    } else {
        strip_ws(s.drop_last()).push(s.last())
    }
}

/// `s` with every whitespace character removed.
pub fn remove_ws(s: &Vec<char>) -> (r: Vec<char>)
    ensures
        r@ == strip_ws(s@),
{
    let mut r: Vec<char> = Vec::new();
    let mut i: usize = 0;
    while i < s.len()
        invariant
            i <= s.len(),
            r@ == strip_ws(s@.take(i as int)),
        decreases s.len() - i,
    {
        assert(s@.take(i + 1).drop_last() =~= s@.take(i as int));
        if !ws(s[i]) {
            r.push(s[i]);
        }
        i = i + 1;
    }
    assert(s@.take(s.len() as int) =~= s@);
    r
}

/// The part of `s` after its last `'|'` (all of `s` when there is none).
pub open spec fn after_last_bar(s: Seq<char>) -> Seq<char>
    decreases s.len(),
{
    if s.len() == 0 {
        s
    } else if s.last() == '|' {
        seq![]
    } else {
        after_last_bar(s.drop_last()).push(s.last())
    }
}

/// `s` without leading whitespace.
pub open spec fn trim_start(s: Seq<char>) -> Seq<char>
    decreases s.len(),
{
    if s.len() > 0 && is_ws(s[0]) {
        trim_start(s.drop_first())
    } else {
        s
    }
}

/// `s` without trailing whitespace.
pub open spec fn trim_end(s: Seq<char>) -> Seq<char>
    decreases s.len(),
{
    if s.len() > 0 && is_ws(s.last()) {
        trim_end(s.drop_last())
    } else {
        s
    }
}

/// `str::trim`.
pub open spec fn trim(s: Seq<char>) -> Seq<char> {
    trim_end(trim_start(s))
}

/// Final destination: the last entry of a `|`-separated path list, trimmed.
pub open spec fn last_stop_of(ppth: Seq<char>) -> Seq<char> {
    trim(after_last_bar(ppth))
}

proof fn lemma_after_last_bar(s: Seq<char>, k: int)
    requires
        0 <= k <= s.len(),
        k == 0 || s[k - 1] == '|',
        forall|j: int| k <= j < s.len() ==> s[j] != '|',
    ensures
        after_last_bar(s) == s.subrange(k, s.len() as int),
    decreases s.len(),
{
    if s.len() == 0 {
    } else if k == s.len() {
    } else {
        lemma_after_last_bar(s.drop_last(), k);
        assert(s.drop_last().subrange(k, s.len() - 1).push(s.last()) =~= s.subrange(
            k,
            s.len() as int,
        ));
    }
}

proof fn lemma_trim_start(s: Seq<char>, a: int)
    requires
        0 <= a <= s.len(),
        forall|j: int| 0 <= j < a ==> is_ws(#[trigger] s[j]),
        a == s.len() || !is_ws(s[a]),
    ensures
        trim_start(s) == s.subrange(a, s.len() as int),
    decreases a,
{
    if a == 0 {
        assert(s.subrange(0, s.len() as int) =~= s);
    } else {
        let t = s.drop_first();
        assert forall|j: int| 0 <= j < a - 1 implies is_ws(#[trigger] t[j]) by {
            assert(t[j] == s[j + 1]);
            assert(is_ws(s[j + 1]));
        }
        assert(is_ws(s[0]));
        if a < s.len() {
            assert(t[a - 1] == s[a]);
        }
        lemma_trim_start(t, a - 1);
        assert(t.subrange(a - 1, t.len() as int) =~= s.subrange(a, s.len() as int));
    }
}

proof fn lemma_trim_end(s: Seq<char>, b: int)
    requires
        0 <= b <= s.len(),
        forall|j: int| b <= j < s.len() ==> is_ws(#[trigger] s[j]),
        b == 0 || !is_ws(s[b - 1]),
    ensures
        trim_end(s) == s.subrange(0, b),
    decreases s.len() - b,
{
    if b == s.len() {
        assert(s.subrange(0, b) =~= s);
    } else {
        let t = s.drop_last();
        assert(is_ws(s.last()));
        assert forall|j: int| b <= j < t.len() implies is_ws(#[trigger] t[j]) by {
            assert(t[j] == s[j]);
            assert(is_ws(s[j]));
        }
        if b > 0 {
            assert(t[b - 1] == s[b - 1]);
        }
        lemma_trim_end(t, b);
        assert(t.subrange(0, b) =~= s.subrange(0, b));
    }
}

/// Final destination = last entry of a `|`-separated path list (`ppth`).
pub fn last_stop(ppth: &Vec<char>) -> (r: Vec<char>)
    ensures
        r@ == last_stop_of(ppth@),
{
    let mut k = ppth.len();
    while k > 0 && ppth[k - 1] != '|'
        invariant
            k <= ppth.len(),
            forall|j: int| k <= j < ppth.len() ==> ppth@[j] != '|',
        decreases k,
    {
        k = k - 1;
    }
    proof {
        lemma_after_last_bar(ppth@, k as int);
    }
    let seg = copy_range(ppth, k, ppth.len());
    let mut a: usize = 0;
    while a < seg.len() && ws(seg[a])
        invariant
            a <= seg.len(),
            forall|j: int| 0 <= j < a ==> is_ws(#[trigger] seg@[j]),
        decreases seg.len() - a,
    {
        a = a + 1;
    }
    proof {
        lemma_trim_start(seg@, a as int);
    }
    let t = copy_range(&seg, a, seg.len());
    let mut b = t.len();
    while b > 0 && ws(t[b - 1])
        invariant
            b <= t.len(),
            forall|j: int| b <= j < t.len() ==> is_ws(#[trigger] t@[j]),
        decreases b,
    {
        b = b - 1;
    }
    proof {
        lemma_trim_end(t@, b as int);
    }
    copy_range(&t, 0, b)
}

}
