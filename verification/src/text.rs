//! Text in specifications, substring search and path exclusion.
use vstd::prelude::*;

verus! {

/// The contents of a sequence of strings.
pub open spec fn texts(strings: Seq<String>) -> Seq<Seq<char>> {
    strings.map_values(|s: String| s@)
}

/// The contents of an optional string.
pub open spec fn opt_text(string: Option<String>) -> Option<Seq<char>> {
    match string {
        Some(s) => Some(s@),
        None => None,
    }
}

/// The contents of an optional list of strings.
pub open spec fn opt_texts(strings: Option<Vec<String>>) -> Option<Seq<Seq<char>>> {
    match strings {
        Some(list) => Some(texts(list@)),
        None => None,
    }
}

/// `needle` stands in `hay` at position `at`.
pub open spec fn occurs_at(needle: Seq<char>, hay: Seq<char>, at: int) -> bool {
    &&& 0 <= at
    &&& at + needle.len() <= hay.len()
    &&& hay.subrange(at, at + needle.len()) == needle
}

/// `needle` stands somewhere in `hay`.
pub open spec fn is_substring(needle: Seq<char>, hay: Seq<char>) -> bool {
    exists|at: int| occurs_at(needle, hay, at)
}

/// `hay` ends in `needle`.
pub open spec fn is_suffix(needle: Seq<char>, hay: Seq<char>) -> bool {
    occurs_at(needle, hay, hay.len() - needle.len())
}

/// Some pattern stands somewhere in the path.
pub open spec fn matches_any(path: Seq<char>, patterns: Seq<Seq<char>>) -> bool {
    exists|k: int| 0 <= k < patterns.len() && is_substring(#[trigger] patterns[k], path)
}

/// The pattern stands in the path, ends the path, or stands in the file name.
pub open spec fn pattern_hits(
    path: Seq<char>,
    file_name: Option<Seq<char>>,
    pattern: Seq<char>,
) -> bool {
    ||| is_substring(pattern, path)
    ||| is_suffix(pattern, path)
    ||| (file_name matches Some(name) && is_substring(pattern, name))
}

/// What stands in a part of a text stands in the text.
proof fn lemma_substring_transitive(a: Seq<char>, b: Seq<char>, c: Seq<char>)
    requires
        is_substring(a, b),
        is_substring(b, c),
    ensures
        is_substring(a, c),
{
    let i = choose|at: int| occurs_at(a, b, at);
    let j = choose|at: int| occurs_at(b, c, at);
    assert(c.subrange(i + j, i + j + a.len()) =~= a) by {
        assert forall|k: int| 0 <= k < a.len() implies c[i + j + k] == a[k] by {
            assert(a[k] == b.subrange(i, i + a.len())[k]);
            assert(b[i + k] == c.subrange(j, j + b.len())[i + k]);
        }
    }
    assert(occurs_at(a, c, i + j));
}

/// A copy of a list of strings.
pub fn clone_texts(strings: &Vec<String>) -> (res: Vec<String>)
    ensures
        texts(res@) == texts(strings@),
        res@.len() == strings@.len(),
        forall|i: int| 0 <= i < res@.len() ==> (#[trigger] res@[i])@ == strings@[i]@,
{
    let res: Vec<String> = strings.clone();
    assert(texts(res@) =~= texts(strings@));
    assert forall|i: int| 0 <= i < res@.len() implies (#[trigger] res@[i])@ == strings@[i]@ by {
        assert(texts(res@)[i] == texts(strings@)[i]);
    }
    res
}

/// A copy of an optional list of strings.
pub fn clone_opt_texts(strings: &Option<Vec<String>>) -> (res: Option<Vec<String>>)
    ensures
        opt_texts(res) == opt_texts(*strings),
{
    match strings {
        Some(list) => Some(clone_texts(list)),
        None => None,
    }
}

/// The characters of a string, in order.
fn chars_of(s: &str) -> (chars: Vec<char>)
    ensures
        chars@ == s@,
{
    let mut chars: Vec<char> = Vec::new();
    for c in it: s.chars()
        invariant
            it.seq() == s@,
            chars@ =~= s@.take(it.index()),
    {
        chars.push(c);
    }
    chars
}

/// Whether `needle` stands in `hay` at `at`.
fn occurs_here(needle: &Vec<char>, hay: &Vec<char>, at: usize) -> (found: bool)
    requires
        at + needle.len() <= hay.len(),
    ensures
        found == occurs_at(needle@, hay@, at as int),
{
    let mut k: usize = 0;
    while k < needle.len()
        invariant
            at + needle.len() <= hay.len(),
            k <= needle.len(),
            forall|i: int| 0 <= i < k ==> hay@[at + i] == needle@[i],
        decreases needle.len() - k,
    {
        if hay[at + k] != needle[k] {
            assert(hay@.subrange(at as int, at + needle@.len())[k as int] != needle@[k as int]);
            return false;
        }
        k += 1;
    }
    assert(hay@.subrange(at as int, at + needle@.len()) =~= needle@);
    true
}

/// Whether `needle` stands somewhere in `hay`.
fn chars_contain(hay: &Vec<char>, needle: &Vec<char>) -> (found: bool)
    ensures
        found == is_substring(needle@, hay@),
{
    if needle.len() > hay.len() {
        return false;
    }
    let last: usize = hay.len() - needle.len();
    let mut at: usize = 0;
    loop
        invariant
            last + needle.len() == hay.len(),
            at <= last,
            forall|i: int| 0 <= i < at ==> !occurs_at(needle@, hay@, i),
        decreases last - at,
    {
        if occurs_here(needle, hay, at) {
            return true;
        }
        if at == last {
            assert forall|i: int| !occurs_at(needle@, hay@, i) by {}
            return false;
        }
        at += 1;
    }
}

/// Whether a path is kept out of the index by the exclusion patterns: some
/// pattern stands somewhere in it.
///
/// A pattern that ends the path or stands in its file name stands in the path,
/// so neither needs a test of its own; see [`law_exclusion_is_by_path`].
pub fn should_exclude(path: &str, patterns: &Vec<String>) -> (res: bool)
    ensures
        res == matches_any(path@, texts(patterns@)),
        res <==> exists|k: int, before: Seq<char>, after: Seq<char>|
            0 <= k < patterns@.len() && path@ == #[trigger] (before + patterns@[k]@ + after),
{
    let path_chars: Vec<char> = chars_of(path);
    let mut i: usize = 0;
    while i < patterns.len()
        invariant
            path_chars@ == path@,
            i <= patterns.len(),
            forall|k: int| 0 <= k < i ==> !is_substring(#[trigger] texts(patterns@)[k], path@),
        decreases patterns.len() - i,
    {
        let pattern: Vec<char> = chars_of(patterns[i].as_str());
        assert(texts(patterns@)[i as int] == pattern@);
        if chars_contain(&path_chars, &pattern) {
            proof {
                law_exclusion_is_by_containment(path@, texts(patterns@));
                lemma_containment_of_strings(path@, patterns@);
            }
            return true;
        }
        i += 1;
    }
    proof {
        law_exclusion_is_by_containment(path@, texts(patterns@));
        lemma_containment_of_strings(path@, patterns@);
    }
    false
}

/// A path is kept out of the index exactly where some pattern stands in it,
/// ends it or stands in its file name, which is a part of it.
pub proof fn law_exclusion_is_by_path(
    path: Seq<char>,
    file_name: Option<Seq<char>>,
    patterns: Seq<Seq<char>>,
)
    requires
        file_name matches Some(name) ==> is_substring(name, path),
    ensures
        (exists|k: int|
            0 <= k < patterns.len() && pattern_hits(path, file_name, #[trigger] patterns[k]))
            <==> matches_any(path, patterns),
{
    assert forall|pattern: Seq<char>| #[trigger]
        pattern_hits(path, file_name, pattern) == is_substring(pattern, path) by {
        if file_name is Some && is_substring(pattern, file_name->0) {
            lemma_substring_transitive(pattern, file_name->0, path);
        }
    }
}

/// A path is kept out of the index exactly where it is made of some pattern
/// with anything before and after it; every pattern counts.
pub proof fn law_exclusion_is_by_containment(path: Seq<char>, patterns: Seq<Seq<char>>)
    ensures
        matches_any(path, patterns) <==> exists|k: int, before: Seq<char>, after: Seq<char>|
            0 <= k < patterns.len() && path == #[trigger] (before + patterns[k] + after),
{
    if matches_any(path, patterns) {
        let k = choose|k: int| 0 <= k < patterns.len() && is_substring(#[trigger] patterns[k], path);
        let at = choose|at: int| occurs_at(patterns[k], path, at);
        let before = path.subrange(0, at);
        let after = path.subrange(at + patterns[k].len(), path.len() as int);
        assert(path =~= before + path.subrange(at, at + patterns[k].len()) + after);
        assert(path == before + patterns[k] + after);
    }
    if exists|k: int, before: Seq<char>, after: Seq<char>|
        0 <= k < patterns.len() && path == #[trigger] (before + patterns[k] + after) {
        let (k, before, after) = choose|k: int, before: Seq<char>, after: Seq<char>|
            0 <= k < patterns.len() && path == #[trigger] (before + patterns[k] + after);
        let at = before.len() as int;
        assert(path.subrange(at, at + patterns[k].len()) =~= patterns[k]);
        assert(occurs_at(patterns[k], path, at));
    }
}

proof fn lemma_containment_of_strings(path: Seq<char>, patterns: Seq<String>)
    ensures
        (exists|k: int, before: Seq<char>, after: Seq<char>|
            0 <= k < texts(patterns).len() && path == #[trigger] (before + texts(patterns)[k]
                + after)) <==> (exists|k: int, before: Seq<char>, after: Seq<char>|
            0 <= k < patterns.len() && path == #[trigger] (before + patterns[k]@ + after)),
{
    if exists|k: int, before: Seq<char>, after: Seq<char>|
        0 <= k < texts(patterns).len() && path == #[trigger] (before + texts(patterns)[k] + after) {
        let (k, before, after) = choose|k: int, before: Seq<char>, after: Seq<char>|
            0 <= k < texts(patterns).len() && path == #[trigger] (before + texts(patterns)[k]
                + after);
        assert(path == before + patterns[k]@ + after);
    }
    if exists|k: int, before: Seq<char>, after: Seq<char>|
        0 <= k < patterns.len() && path == #[trigger] (before + patterns[k]@ + after) {
        let (k, before, after) = choose|k: int, before: Seq<char>, after: Seq<char>|
            0 <= k < patterns.len() && path == #[trigger] (before + patterns[k]@ + after);
        assert(path == before + texts(patterns)[k] + after);
    }
}

/// Lists of strings stand in the specifications string by string, with nothing
/// left out and in order.
pub proof fn law_texts_are_the_strings(list: Vec<String>, string: String)
    ensures
        texts(list@).len() == list@.len(),
        forall|i: int| 0 <= i < list@.len() ==> #[trigger] texts(list@)[i] == list@[i]@,
        opt_text(Some(string)) == Some(string@),
        opt_text(None) is None,
        opt_texts(Some(list)) == Some(texts(list@)),
        opt_texts(None) is None,
{
}

} // verus!
