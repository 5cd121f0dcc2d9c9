//! Paths as text. A path is a string whose segments are separated by `/`; a
//! path that begins with `/` is absolute. Two texts are the same path when
//! they have the same normal form: a `/` at the end, a `/` written twice and
//! a segment `.` make no difference, a segment `..` does.

use vstd::prelude::*;
use vstd::string::*;
use crate::text::{
    free_of, has_prefix, join, join_with, lemma_join_front, lemma_split_join, lemma_split_pieces,
    same_text, split, split_on, starts_with, texts,
};

verus! {

/// Whether `path` begins at the root.
pub open spec fn is_absolute(path: Seq<char>) -> bool {
    path.len() > 0 && path[0] == '/'
}

/// `base` in the form that a further segment can follow directly: empty, or
/// ending with `/`.
pub open spec fn as_prefix(base: Seq<char>) -> Seq<char> {
    if base.len() == 0 || base.last() == '/' {
        base
    } else {
        base.push('/')
    }
}

/// `rel` resolved against `base`: an absolute `rel` stands for itself, any other
/// is placed below `base`.
pub open spec fn joined(base: Seq<char>, rel: Seq<char>) -> Seq<char> {
    if is_absolute(rel) {
        rel
    } else {
        as_prefix(base) + rel
    }
}

/// What is left of `path` below `base`: the non-empty relative text `rel` with
/// `joined(base, rel) == path`, if there is one.
pub open spec fn relative_to(path: Seq<char>, base: Seq<char>) -> Option<Seq<char>> {
    let prefix = as_prefix(base);
    if has_prefix(path, prefix) && path.len() > prefix.len() && path[prefix.len() as int] != '/' {
        Some(path.subrange(prefix.len() as int, path.len() as int))
    } else {
        None
    }
}

/// The position of the last `/` in `path`, or -1 where it holds none.
pub open spec fn last_slash(path: Seq<char>) -> int
    decreases path.len(),
{
    if path.len() == 0 {
        -1
    } else if path.last() == '/' {
        path.len() - 1
    } else {
        last_slash(path.drop_last())
    }
}

/// The directory part of `path`: what stands before its last `/`, or nothing
/// where it has no `/`.
pub open spec fn parent_of(path: Seq<char>) -> Seq<char> {
    let at = last_slash(path);
    if at < 0 {
        Seq::empty()
    } else {
        path.subrange(0, at)
    }
}

/// `last_slash` is the greatest position that holds `/`.
pub proof fn lemma_last_slash(path: Seq<char>, at: int)
    requires
        -1 <= at < path.len(),
        forall|k: int| at < k < path.len() ==> path[k] != '/',
        at >= 0 ==> path[at] == '/',
    ensures
        last_slash(path) == at,
    decreases path.len(),
{
    if path.len() > 0 && at < path.len() - 1 {
        let front = path.drop_last();
        assert forall|k: int| at < k < front.len() implies front[k] != '/' by {
            assert(front[k] == path[k]);
        }
        lemma_last_slash(front, at);
    }
}

/// A relative, non-empty path placed below a base is found again below it.
pub proof fn lemma_relative_to_joined(base: Seq<char>, rel: Seq<char>)
    requires
        rel.len() > 0,
        !is_absolute(rel),
    ensures
        relative_to(joined(base, rel), base) == Some(rel),
{
    let prefix = as_prefix(base);
    let path = prefix + rel;
    assert(path.subrange(0, prefix.len() as int) == prefix);
    assert(path[prefix.len() as int] == rel[0]);
    assert(path.subrange(prefix.len() as int, path.len() as int) == rel);
}

/// Tells whether `path` begins at the root.
pub fn absolute(path: &str) -> (out: bool)
    ensures
        out == is_absolute(path@),
{
    let n = path.unicode_len();
    n > 0 && path.get_char(0) == '/'
}

fn prefix_of(base: &str) -> (out: String)
    ensures
        out@ == as_prefix(base@),
{
    let n = base.unicode_len();
    let mut out = String::from_str(base);
    if n > 0 && base.get_char(n - 1) != '/' {
        proof {
            reveal_strlit("/");
        }
        out.append("/");
        assert(out@ == base@.push('/'));
    }
    out
}

/// Resolves `rel` against `base`.
pub fn join_path(base: &str, rel: &str) -> (out: String)
    ensures
        out@ == joined(base@, rel@),
{
    if absolute(rel) {
        String::from_str(rel)
    } else {
        let mut out = prefix_of(base);
        out.append(rel);
        out
    }
}

/// Gives what is left of `path` below `base`, if `path` lies below it.
pub fn strip_base(path: &str, base: &str) -> (out: Option<String>)
    ensures
        out is Some == relative_to(path@, base@) is Some,
        out matches Some(rel) ==> rel@ == relative_to(path@, base@).unwrap(),
{
    let prefix = prefix_of(base);
    let n = path.unicode_len();
    let m = prefix.as_str().unicode_len();
    if starts_with(path, prefix.as_str()) && n > m && path.get_char(m) != '/' {
        Some(String::from_str(path.substring_char(m, n)))
    } else {
        None
    }
}

/// Gives the directory part of `path`.
pub fn parent(path: &str) -> (out: String)
    ensures
        out@ == parent_of(path@),
{
    let n = path.unicode_len();
    let mut i: usize = n;
    while i > 0
        invariant
            i <= n,
            n == path@.len(),
            forall|k: int| i <= k < n ==> path@[k] != '/',
        decreases i,
    {
        if path.get_char(i - 1) == '/' {
            proof {
                lemma_last_slash(path@, i - 1);
            }
            return String::from_str(path.substring_char(0, i - 1));
        }
        i = i - 1;
    }
    proof {
        lemma_last_slash(path@, -1);
    }
    String::new()
}

/// Whether `segment` counts as a step of a path: it is not empty and not `.`,
/// and, where `strict` is set, not `..` either.
pub open spec fn is_kept(segment: Seq<char>, strict: bool) -> bool {
    segment.len() > 0 && segment != "."@ && (strict ==> segment != ".."@)
}

/// The segments among `segments` that count, in order.
pub open spec fn kept_of(segments: Seq<Seq<char>>, strict: bool) -> Seq<Seq<char>>
    decreases segments.len(),
{
    if segments.len() == 0 {
        Seq::empty()
    } else if is_kept(segments.last(), strict) {
        kept_of(segments.drop_last(), strict).push(segments.last())
    } else {
        kept_of(segments.drop_last(), strict)
    }
}

/// The path that `path` stands for, written in one way: a `/` at its
/// beginning if it is absolute, a `.` if it is relative and begins with one,
/// and then its segments with one `/` between them, empty segments and `.`
/// left out. Two texts are the same path exactly when they have the same
/// normal form; so `a/b`, `a/b/`, `a//b` and `a/./b` are the same path, and
/// `a/../b` and `b` are not.
pub open spec fn normalized(path: Seq<char>) -> Seq<char> {
    let segments = split_on(path, '/');
    let kept = kept_of(segments, false);
    if is_absolute(path) {
        "/"@ + join_with(kept, "/"@)
    } else if segments[0] == "."@ {
        join_with(seq!["."@] + kept, "/"@)
    } else {
        join_with(kept, "/"@)
    }
}

/// Whether two texts are the same path.
pub open spec fn same_path(a: Seq<char>, b: Seq<char>) -> bool {
    normalized(a) == normalized(b)
}

/// The relative path that a name from elsewhere is kept under: the name up to
/// its first NUL, `\` read as `/`, and of its segments those that are not
/// empty, `.` or `..`, with one `/` between them. Whatever the name, this
/// path leads neither to the root nor to a directory above.
pub open spec fn enclosed(name: Seq<char>) -> Seq<char> {
    let cut = split_on(name, '\0')[0];
    let slashed = join_with(split_on(cut, '\\'), "/"@);
    join_with(kept_of(split_on(slashed, '/'), true), "/"@)
}

/// Gives the segments among `segments` that count, in order.
pub fn keep(segments: &Vec<String>, strict: bool) -> (out: Vec<String>)
    ensures
        texts(out@) == kept_of(texts(segments@), strict),
{
    let mut out: Vec<String> = Vec::new();
    let mut i: usize = 0;
    assert(texts(segments@).take(0) =~= Seq::<Seq<char>>::empty());
    while i < segments.len()
        invariant
            i <= segments.len(),
            texts(out@) == kept_of(texts(segments@).take(i as int), strict),
        decreases segments.len() - i,
    {
        let segment = segments[i].as_str();
        let kept = segment.unicode_len() > 0 && !same_text(segment, ".") && (!strict || !same_text(
            segment,
            "..",
        ));
        let ghost before = texts(out@);
        proof {
            let upto = texts(segments@).take(i + 1);
            assert(upto.drop_last() =~= texts(segments@).take(i as int));
            assert(upto.last() == segment@);
        }
        if kept {
            out.push(segments[i].clone());
            assert(texts(out@) =~= before.push(segment@));
        }
        i = i + 1;
    }
    assert(texts(segments@).take(segments.len() as int) =~= texts(segments@));
    out
}

/// Writes `path` in its normal form.
pub fn normalize(path: &str) -> (out: String)
    ensures
        out@ == normalized(path@),
{
    let segments = split(path, '/');
    let kept = keep(&segments, false);
    assert(split_on(path@, '/').len() >= 1);
    assert(texts(segments@)[0] == segments@[0]@);
    if absolute(path) {
        let mut out = String::from_str("/");
        out.append(join(&kept, "/").as_str());
        out
    } else if same_text(segments[0].as_str(), ".") {
        let mut parts: Vec<String> = Vec::new();
        parts.push(String::from_str("."));
        let mut rest = kept;
        let ghost tail = texts(rest@);
        parts.append(&mut rest);
        assert(texts(parts@) =~= seq!["."@] + tail);
        join(&parts, "/")
    } else {
        join(&kept, "/")
    }
}

/// Gives the relative path that a name from elsewhere is kept under.
pub fn enclose(name: &str) -> (out: String)
    ensures
        out@ == enclosed(name@),
{
    let cut = split(name, '\0');
    assert(split_on(name@, '\0').len() >= 1);
    assert(texts(cut@)[0] == cut@[0]@);
    let slashed = join(&split(cut[0].as_str(), '\\'), "/");
    let segments = split(slashed.as_str(), '/');
    join(&keep(&segments, true), "/")
}

/// What is kept counts, and was among the segments.
pub proof fn lemma_kept_of(segments: Seq<Seq<char>>, strict: bool)
    ensures
        forall|j: int|
            0 <= j < kept_of(segments, strict).len() ==> is_kept(
                #[trigger] kept_of(segments, strict)[j],
                strict,
            ) && segments.contains(kept_of(segments, strict)[j]),
    decreases segments.len(),
{
    if segments.len() > 0 {
        let front = segments.drop_last();
        lemma_kept_of(front, strict);
        let kept = kept_of(segments, strict);
        assert forall|j: int| 0 <= j < kept.len() implies is_kept(#[trigger] kept[j], strict)
            && segments.contains(kept[j]) by {
            if j < kept_of(front, strict).len() {
                let segment = kept_of(front, strict)[j];
                assert(kept[j] == segment);
                let at = choose|at: int| 0 <= at < front.len() && front[at] == segment;
                assert(segments[at] == segment);
            } else {
                assert(kept[j] == segments.last());
                assert(segments[segments.len() - 1] == kept[j]);
            }
        }
    }
}

/// Whether `target` stays where it is put: it is relative, and none of its
/// segments is `..`.
pub open spec fn is_enclosed(target: Seq<char>) -> bool {
    !is_absolute(target) && !split_on(target, '/').contains(".."@)
}

/// Whatever the name, the path that it is kept under stays where it is put.
pub proof fn lemma_enclosed_stays(name: Seq<char>)
    ensures
        is_enclosed(enclosed(name)),
{
    reveal_strlit("/");
    reveal_strlit("..");
    let cut = split_on(name, '\0')[0];
    let slashed = join_with(split_on(cut, '\\'), "/"@);
    let segments = split_on(slashed, '/');
    let kept = kept_of(segments, true);
    let target = join_with(kept, "/"@);
    assert("/"@ =~= seq!['/']);
    lemma_split_pieces(slashed, '/');
    lemma_kept_of(segments, true);
    assert forall|j: int| 0 <= j < kept.len() implies free_of(#[trigger] kept[j], '/') by {
        let at = choose|at: int| 0 <= at < segments.len() && segments[at] == kept[j];
        assert(free_of(segments[at], '/'));
    }
    if kept.len() == 0 {
        assert(target =~= Seq::<char>::empty());
        assert(split_on(target, '/') =~= seq![target]);
        assert forall|i: int| 0 <= i < split_on(target, '/').len() implies split_on(
            target,
            '/',
        )[i] != ".."@ by {
            assert(".."@.len() == 2);
        }
    } else {
        lemma_split_join(kept, '/');
        assert(is_kept(kept[0], true));
        assert(free_of(kept[0], '/'));
        if kept.len() >= 2 {
            lemma_join_front(kept, "/"@);
            assert(target[0] == kept[0][0]);
        } else {
            assert(target == kept[0]);
        }
        assert(target[0] != '/');
        assert forall|i: int| 0 <= i < kept.len() implies kept[i] != ".."@ by {
            assert(is_kept(kept[i], true));
        }
    }
}

/// Whether `path` lies below the directory `base`, as far as its text shows:
/// it begins with `base`, and what follows stays there.
pub open spec fn stays_below(path: Seq<char>, base: Seq<char>) -> bool {
    has_prefix(path, as_prefix(base)) && is_enclosed(
        path.subrange(as_prefix(base).len() as int, path.len() as int),
    )
}

/// A name from elsewhere, kept below a directory, lies below that directory:
/// it leads neither to the root nor to a directory above.
pub proof fn lemma_enclosed_stays_below(base: Seq<char>, name: Seq<char>)
    ensures
        stays_below(joined(base, enclosed(name)), base),
{
    lemma_enclosed_stays(name);
    let prefix = as_prefix(base);
    let target = enclosed(name);
    let path = prefix + target;
    assert(path.subrange(0, prefix.len() as int) =~= prefix);
    assert(path.subrange(prefix.len() as int, path.len() as int) =~= target);
}

} // verus!
