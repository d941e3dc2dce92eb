use vstd::prelude::*;

verus! {

/// The characters that XML counts as whitespace: space, tab, line feed and
/// carriage return.
pub open spec fn is_xml_space(c: char) -> bool {
    c == ' ' || c == '\t' || c == '\n' || c == '\r'
}

/// `t` without its leading whitespace.
pub open spec fn trim_start(t: Seq<char>) -> Seq<char>
    decreases t.len(),
{
    if t.len() > 0 && is_xml_space(t[0]) {
        trim_start(t.drop_first())
    } else {
        t
    }
}

/// `t` without its trailing whitespace.
pub open spec fn trim_end(t: Seq<char>) -> Seq<char>
    decreases t.len(),
{
    if t.len() > 0 && is_xml_space(t.last()) {
        trim_end(t.drop_last())
    } else {
        t
    }
}

/// `t` without its leading and trailing whitespace.
pub open spec fn trim(t: Seq<char>) -> Seq<char> {
    trim_end(trim_start(t))
}

/// Neither the first nor the last character of `t` is whitespace.
pub open spec fn is_trimmed(t: Seq<char>) -> bool {
    t.len() == 0 || (!is_xml_space(t[0]) && !is_xml_space(t.last()))
}

/// Whether `c` is XML whitespace.
pub fn is_xml_space_char(c: char) -> (r: bool)
    ensures
        r == is_xml_space(c),
{
    c == ' ' || c == '\t' || c == '\n' || c == '\r'
}

/// Dropping leading whitespace leaves the suffix from the first
/// non-whitespace character on, given that everything before it is
/// whitespace.
proof fn lemma_trim_start_at(t: Seq<char>, j: int)
    requires
        0 <= j <= t.len(),
        forall|k: int| 0 <= k < j ==> is_xml_space(#[trigger] t[k]),
        j == t.len() || !is_xml_space(t[j]),
    ensures
        trim_start(t) == t.subrange(j, t.len() as int),
    decreases j,
{
    if j == 0 {
        assert(t.subrange(0, t.len() as int) =~= t);
    } else {
        let u = t.drop_first();
        assert forall|k: int| 0 <= k < j - 1 implies is_xml_space(#[trigger] u[k]) by {
            assert(u[k] == t[k + 1]);
        }
        lemma_trim_start_at(u, j - 1);
        assert(u.subrange(j - 1, u.len() as int) =~= t.subrange(j, t.len() as int));
    }
}

/// Dropping trailing whitespace leaves the prefix up to `j`, given that
/// everything from `j` on is whitespace and the character before `j` is not.
proof fn lemma_trim_end_at(t: Seq<char>, j: int)
    requires
        0 <= j <= t.len(),
        forall|k: int| j <= k < t.len() ==> is_xml_space(#[trigger] t[k]),
        j == 0 || !is_xml_space(t[j - 1]),
    ensures
        trim_end(t) == t.subrange(0, j),
    decreases t.len() - j,
{
    if j == t.len() {
        assert(t.subrange(0, j) =~= t);
    } else {
        let u = t.drop_last();
        assert forall|k: int| j <= k < u.len() implies is_xml_space(#[trigger] u[k]) by {
            assert(u[k] == t[k]);
        }
        lemma_trim_end_at(u, j);
        assert(u.subrange(0, j) =~= t.subrange(0, j));
    }
}

/// Trimming keeps exactly the characters from the first non-whitespace
/// character `i` to the last one `j`, or nothing where every character is
/// whitespace.
pub proof fn lemma_trim_range(t: Seq<char>, i: int, j: int)
    requires
        0 <= i <= j <= t.len(),
        forall|k: int| 0 <= k < i ==> is_xml_space(#[trigger] t[k]),
        forall|k: int| j <= k < t.len() ==> is_xml_space(#[trigger] t[k]),
        i == j ==> i == t.len(),
        i < j ==> !is_xml_space(t[i]) && !is_xml_space(t[j - 1]),
    ensures
        trim(t) == t.subrange(i, j),
{
    lemma_trim_start_at(t, i);
    let u = t.subrange(i, t.len() as int);
    assert forall|k: int| j - i <= k < u.len() implies is_xml_space(#[trigger] u[k]) by {
        assert(u[k] == t[k + i]);
    }
    if i < j {
        assert(u[j - i - 1] == t[j - 1]);
    }
    lemma_trim_end_at(u, j - i);
    assert(u.subrange(0, j - i) =~= t.subrange(i, j));
}

/// A trimmed text starts and ends with a non-whitespace character.
pub proof fn lemma_trim_is_trimmed(t: Seq<char>)
    ensures
        is_trimmed(trim(t)),
{
    let s = trim_start(t);
    lemma_trim_start_shape(t);
    lemma_trim_end_shape(s);
}

/// Trimming the start leaves no leading whitespace.
proof fn lemma_trim_start_shape(t: Seq<char>)
    ensures
        trim_start(t).len() == 0 || !is_xml_space(trim_start(t)[0]),
    decreases t.len(),
{
    if t.len() > 0 && is_xml_space(t[0]) {
        lemma_trim_start_shape(t.drop_first());
    }
}

/// Trimming the end keeps a prefix, and leaves no trailing whitespace.
proof fn lemma_trim_end_shape(t: Seq<char>)
    ensures
        trim_end(t).len() <= t.len(),
        trim_end(t) == t.subrange(0, trim_end(t).len() as int),
        trim_end(t).len() == 0 || !is_xml_space(trim_end(t).last()),
    decreases t.len(),
{
    if t.len() > 0 && is_xml_space(t.last()) {
        lemma_trim_end_shape(t.drop_last());
        assert(t.drop_last().subrange(0, trim_end(t).len() as int) =~= t.subrange(
            0,
            trim_end(t).len() as int,
        ));
    } else {
        assert(t.subrange(0, t.len() as int) =~= t);
    }
}

/// A text without whitespace at either end is left as it is by trimming.
pub proof fn lemma_trimmed_fixed(t: Seq<char>)
    requires
        is_trimmed(t),
    ensures
        trim(t) == t,
{
    if t.len() > 0 {
        lemma_trim_range(t, 0, t.len() as int);
        assert(t.subrange(0, t.len() as int) =~= t);
    } else {
        assert(trim_start(t) == t);
    }
}

/// Returns `s` without its leading and trailing XML whitespace.
pub fn trim_xml(s: &str) -> (r: String)
    ensures
        r@ == trim(s@),
{
    let ghost t = s@;
    let mut first: usize = 0;
    let mut end: usize = 0;
    let mut seen: bool = false;
    let len = s.unicode_len();
    let mut n: usize = 0;
    for c in it: s.chars()
        invariant
            n == it.index(),
            it.seq() == t,
            t.len() == len,
            first <= end <= n,
            seen == (exists|k: int| 0 <= k < n && !is_xml_space(#[trigger] t[k])),
            forall|k: int| 0 <= k < first ==> is_xml_space(#[trigger] t[k]),
            forall|k: int| end <= k < n ==> is_xml_space(#[trigger] t[k]),
            seen ==> first < end && !is_xml_space(t[first as int]) && !is_xml_space(
                t[end - 1],
            ),
            !seen ==> first == 0 && end == 0,
    {
        if !is_xml_space_char(c) {
            if !seen {
                first = n;
                seen = true;
            }
            end = n + 1;
        }
        n = n + 1;
    }
    if !seen {
        first = n;
        end = n;
    }
    proof {
        lemma_trim_range(t, first as int, end as int);
    }
    let part = s.substring_char(first, end);
    String::from_str(part)
}

} // verus!
