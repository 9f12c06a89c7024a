//! Text primitives shared by the parsers: character classes, the
//! whitespace-collapsing rule, substring search and replacement, and the
//! normalisation that every transcript goes through.
use vstd::prelude::*;

verus! {

// ------------------------------------------------------------------
// Outside character and string functions
// ------------------------------------------------------------------

/// What `str::to_lowercase` returns for a string (Unicode lowercase
/// mapping, with the context rule for final sigma).
pub uninterp spec fn lowercase(s: Seq<char>) -> Seq<char>;

/// What `char::is_alphanumeric` returns (Unicode `Alphabetic` or `Numeric`).
pub uninterp spec fn alphanumeric(c: char) -> bool;

/// Calls `str::to_lowercase`; the result is `lowercase` of the input.
#[verifier::external_body]
pub(crate) fn to_lowercase(s: &str) -> (r: String)
    ensures
        r@ == lowercase(s@),
{
    s.to_lowercase()
}

/// Calls `char::is_alphanumeric`; the result is `alphanumeric` of the input.
#[verifier::external_body]
pub(crate) fn is_alphanumeric(c: char) -> (r: bool)
    ensures
        r == alphanumeric(c),
{
    c.is_alphanumeric()
}

/// Collects characters into a `String` (`String: FromIterator<char>`);
/// the string holds exactly those characters, in order.
#[verifier::external_body]
pub(crate) fn string_from_chars(chars: &Vec<char>) -> (s: String)
    ensures
        s@ == chars@,
{
    chars.iter().collect()
}

// ------------------------------------------------------------------
// Character classes
// ------------------------------------------------------------------

/// Unicode `White_Space`, the class that `char::is_whitespace`,
/// `str::trim` and `str::split_whitespace` use.
pub open spec fn whitespace(c: char) -> bool {
    let u = c as u32;
    ||| 0x09 <= u <= 0x0D
    ||| u == 0x20
    ||| u == 0x85
    ||| u == 0xA0
    ||| u == 0x1680
    ||| 0x2000 <= u <= 0x200A
    ||| u == 0x2028
    ||| u == 0x2029
    ||| u == 0x202F
    ||| u == 0x205F
    ||| u == 0x3000
}

/// `char::is_whitespace`.
pub fn is_whitespace(c: char) -> (r: bool)
    ensures
        r == whitespace(c),
{
    let u: u32 = c as u32;
    (0x09 <= u && u <= 0x0D) || u == 0x20 || u == 0x85 || u == 0xA0 || u == 0x1680 || (0x2000
        <= u && u <= 0x200A) || u == 0x2028 || u == 0x2029 || u == 0x202F || u == 0x205F || u
        == 0x3000
}

/// `ё` becomes `е`; every other character stays.
pub open spec fn fold_yo(c: char) -> char {
    if c == 'ё' {
        'е'
    } else {
        c
    }
}

/// A character that is neither alphanumeric nor whitespace becomes a space.
pub open spec fn blank_symbol(c: char) -> char {
    if alphanumeric(c) || whitespace(c) {
        c
    } else {
        ' '
    }
}

// ------------------------------------------------------------------
// Collapsing whitespace
// ------------------------------------------------------------------

/// The words of `s` (maximal runs of non-whitespace characters) joined by
/// single spaces: what `s.split_whitespace().collect::<Vec<_>>().join(" ")`
/// gives. Defined over prefixes: a whitespace character adds nothing, a
/// word character is appended, preceded by a space when it starts a word
/// that is not the first one.
pub open spec fn squeeze(s: Seq<char>) -> Seq<char>
    decreases s.len(),
{
    if s.len() == 0 {
        seq![]
    } else {
        let prev = squeeze(s.drop_last());
        let c = s.last();
        if whitespace(c) {
            prev
        } else if prev.len() > 0 && whitespace(s[s.len() - 2]) {
            prev.push(' ').push(c)
        } else {
            prev.push(c)
        }
    }
}

/// `s` has no whitespace but single inner spaces: it neither starts nor ends
/// with whitespace, its only whitespace character is `' '`, and no two
/// spaces are adjacent.
pub open spec fn is_squeezed(s: Seq<char>) -> bool {
    &&& s.len() > 0 ==> !whitespace(s[0]) && !whitespace(s.last())
    &&& forall|i: int| 0 <= i < s.len() && whitespace(s[i]) ==> s[i] == ' '
    &&& forall|i: int| 0 <= i < s.len() - 1 && #[trigger] s[i] == ' ' ==> s[i + 1] != ' '
}

/// No whitespace at the start, `' '` as the only whitespace character, and
/// no two adjacent spaces: `is_squeezed` except, possibly, a trailing space.
pub open spec fn squeezed_but_last(s: Seq<char>) -> bool {
    &&& s.len() > 0 ==> !whitespace(s[0])
    &&& forall|i: int| 0 <= i < s.len() && whitespace(s[i]) ==> s[i] == ' '
    &&& forall|i: int| 0 <= i < s.len() - 1 && #[trigger] s[i] == ' ' ==> s[i + 1] != ' '
}

/// Collapsing whitespace always yields text in collapsed form.
pub proof fn lemma_squeeze_is_squeezed(s: Seq<char>)
    ensures
        is_squeezed(squeeze(s)),
    decreases s.len(),
{
    if s.len() > 0 {
        lemma_squeeze_is_squeezed(s.drop_last());
        let p = squeeze(s.drop_last());
        let c = s.last();
        let r = squeeze(s);
        if whitespace(c) {
        } else if p.len() > 0 && whitespace(s[s.len() - 2]) {
            assert(r == p.push(' ').push(c));
            assert forall|i: int| 0 <= i < r.len() - 1 && #[trigger] r[i] == ' ' implies r[i + 1]
                != ' ' by {
                if i < p.len() - 1 {
                    assert(r[i] == p[i] && r[i + 1] == p[i + 1]);
                } else if i == p.len() - 1 {
                    assert(r[i] == p.last());
                }
            }
            assert forall|i: int| 0 <= i < r.len() && whitespace(r[i]) implies r[i] == ' ' by {
                if i < p.len() {
                    assert(r[i] == p[i]);
                }
            }
        } else {
            assert(r == p.push(c));
            assert forall|i: int| 0 <= i < r.len() - 1 && #[trigger] r[i] == ' ' implies r[i + 1]
                != ' ' by {
                if i < p.len() - 1 {
                    assert(r[i] == p[i] && r[i + 1] == p[i + 1]);
                } else if i == p.len() - 1 {
                    assert(r[i] == p.last());
                }
            }
            assert forall|i: int| 0 <= i < r.len() && whitespace(r[i]) implies r[i] == ' ' by {
                if i < p.len() {
                    assert(r[i] == p[i]);
                }
            }
        }
    }
}

/// Text in collapsed form, except perhaps for one trailing space, collapses
/// to itself without that space.
proof fn lemma_squeeze_almost_squeezed(s: Seq<char>)
    requires
        squeezed_but_last(s),
    ensures
        squeeze(s) == (if s.len() > 0 && s.last() == ' ' {
            s.drop_last()
        } else {
            s
        }),
    decreases s.len(),
{
    if s.len() > 0 {
        let d = s.drop_last();
        assert(squeezed_but_last(d)) by {
            assert forall|i: int| 0 <= i < d.len() - 1 && #[trigger] d[i] == ' ' implies d[i + 1]
                != ' ' by {
                assert(s[i] == d[i] && s[i + 1] == d[i + 1]);
            }
            assert forall|i: int| 0 <= i < d.len() && whitespace(d[i]) implies d[i] == ' ' by {
                assert(s[i] == d[i]);
            }
        }
        lemma_squeeze_almost_squeezed(d);
        let c = s.last();
        if s.len() >= 2 {
            assert(d.last() == s[s.len() - 2]);
        }
        if whitespace(c) {
            assert(c == ' ');
            if s.len() >= 2 {
                assert(s[s.len() - 2] != ' ');
            }
        } else if s.len() >= 2 && whitespace(s[s.len() - 2]) {
            assert(s[s.len() - 2] == ' ');
            assert(s.len() >= 3);
            assert(d.drop_last().len() > 0);
            assert(d.drop_last().push(' ').push(c) =~= s);
        } else {
            assert(d.push(c) =~= s);
        }
    }
}

/// Text already in collapsed form is left unchanged by collapsing.
pub proof fn lemma_squeezed_fixed(s: Seq<char>)
    requires
        is_squeezed(s),
    ensures
        squeeze(s) == s,
{
    lemma_squeeze_almost_squeezed(s);
}

/// Collapsing whitespace twice is collapsing it once.
pub proof fn lemma_squeeze_idempotent(s: Seq<char>)
    ensures
        squeeze(squeeze(s)) == squeeze(s),
{
    lemma_squeeze_is_squeezed(s);
    lemma_squeezed_fixed(squeeze(s));
}

/// Leading whitespace does not change the collapsed text.
pub proof fn lemma_squeeze_skips_leading_whitespace(s: Seq<char>)
    requires
        s.len() > 0,
        whitespace(s[0]),
    ensures
        squeeze(s) == squeeze(s.skip(1)),
    decreases s.len(),
{
    if s.len() == 1 {
        assert(s.skip(1) =~= Seq::<char>::empty());
        assert(squeeze(s.drop_last()) == Seq::<char>::empty()) by {
            assert(s.drop_last() =~= Seq::<char>::empty());
        }
    } else {
        let d = s.drop_last();
        let t = s.skip(1);
        assert(d[0] == s[0]);
        lemma_squeeze_skips_leading_whitespace(d);
        assert(d.skip(1) =~= t.drop_last());
        assert(t.last() == s.last());
        if s.len() == 2 {
            assert(d =~= seq![s[0]]);
            assert(squeeze(d) == Seq::<char>::empty()) by {
                assert(d.drop_last() =~= Seq::<char>::empty());
            }
            assert(t.drop_last() =~= Seq::<char>::empty());
        } else {
            assert(t[t.len() - 2] == s[s.len() - 2]);
        }
    }
}

/// A suffix of collapsed text collapses to itself without its leading space
/// (if it has one), which is what trimming gives.
pub proof fn lemma_squeeze_suffix_is_trim(n: Seq<char>, e: int)
    requires
        is_squeezed(n),
        0 <= e <= n.len(),
    ensures
        squeeze(n.skip(e)) == trim(n.skip(e)),
{
    let x = n.skip(e);
    if x.len() == 0 {
        assert(squeeze(x) == Seq::<char>::empty());
        assert(trim_start(x) == x);
        assert(trim_end(x) == x);
    } else if whitespace(x[0]) {
        assert(x[0] == n[e]);
        assert(n[e] == ' ');
        assert(e + 1 < n.len());
        let y = x.skip(1);
        assert(y =~= n.skip(e + 1));
        assert(y[0] == n[e + 1]);
        assert(is_squeezed(y)) by {
            assert forall|i: int| 0 <= i < y.len() - 1 && #[trigger] y[i] == ' ' implies y[i + 1]
                != ' ' by {
                assert(y[i] == n[e + 1 + i] && y[i + 1] == n[e + 1 + i + 1]);
            }
            assert forall|i: int| 0 <= i < y.len() && whitespace(y[i]) implies y[i] == ' ' by {
                assert(y[i] == n[e + 1 + i]);
            }
            assert(y.last() == n.last());
        }
        lemma_squeeze_skips_leading_whitespace(x);
        lemma_squeezed_fixed(y);
        assert(trim_start(y) == y);
        assert(trim_start(x) == y);
        assert(trim_end(y) == y);
    } else {
        assert(is_squeezed(x)) by {
            assert forall|i: int| 0 <= i < x.len() - 1 && #[trigger] x[i] == ' ' implies x[i + 1]
                != ' ' by {
                assert(x[i] == n[e + i] && x[i + 1] == n[e + i + 1]);
            }
            assert forall|i: int| 0 <= i < x.len() && whitespace(x[i]) implies x[i] == ' ' by {
                assert(x[i] == n[e + i]);
            }
            assert(x.last() == n.last());
        }
        lemma_squeezed_fixed(x);
        assert(trim_start(x) == x);
        assert(trim_end(x) == x);
    }
}

/// Collapses whitespace as `squeeze` states.
pub fn squeeze_chars(s: &Vec<char>) -> (r: Vec<char>)
    ensures
        r@ == squeeze(s@),
{
    let mut out: Vec<char> = Vec::new();
    let mut i: usize = 0;
    while i < s.len()
        invariant
            i <= s.len(),
            out@ == squeeze(s@.take(i as int)),
        decreases s.len() - i,
    {
        let c = s[i];
        assert(s@.take(i as int + 1).drop_last() =~= s@.take(i as int));
        if is_whitespace(c) {
        } else if out.len() > 0 && is_whitespace(s[i - 1]) {
            out.push(' ');
            out.push(c);
        } else {
            out.push(c);
        }
        i = i + 1;
    }
    assert(s@.take(s@.len() as int) =~= s@);
    out
}

// ------------------------------------------------------------------
// Substrings
// ------------------------------------------------------------------

/// `needle` occurs in `hay` starting at position `i`.
pub open spec fn occurs_at(hay: Seq<char>, needle: Seq<char>, i: int) -> bool {
    &&& 0 <= i
    &&& i + needle.len() <= hay.len()
    &&& hay.subrange(i, i + needle.len()) == needle
}

/// `needle` occurs somewhere in `hay` (`str::contains`).
pub open spec fn occurs_in(hay: Seq<char>, needle: Seq<char>) -> bool {
    exists|i: int| occurs_at(hay, needle, i)
}

/// Whether `needle` occurs in `hay` at position `i`.
pub fn matches_at(hay: &Vec<char>, needle: &Vec<char>, i: usize) -> (r: bool)
    ensures
        r == occurs_at(hay@, needle@, i as int),
{
    if i > hay.len() || needle.len() > hay.len() - i {
        return false;
    }
    let mut k: usize = 0;
    while k < needle.len()
        invariant
            k <= needle.len(),
            i + needle.len() <= hay.len(),
            forall|j: int| 0 <= j < k ==> hay@[i + j] == needle@[j],
        decreases needle.len() - k,
    {
        if hay[i + k] != needle[k] {
            assert(hay@.subrange(i as int, i + needle.len())[k as int] != needle@[k as int]);
            return false;
        }
        k = k + 1;
    }
    assert(hay@.subrange(i as int, i + needle.len()) =~= needle@);
    true
}

/// The first position at or after `from` where `needle` occurs in `hay`
/// (`str::find` on the text from `from` on).
pub fn find_from(hay: &Vec<char>, needle: &Vec<char>, from: usize) -> (r: Option<usize>)
    ensures
        match r {
            Some(i) => {
                &&& from <= i
                &&& occurs_at(hay@, needle@, i as int)
                &&& forall|j: int| from <= j < i ==> !occurs_at(hay@, needle@, j)
            },
            None => forall|j: int| from <= j ==> !occurs_at(hay@, needle@, j),
        },
{
    let mut i: usize = from;
    while i <= hay.len()
        invariant
            from <= i,
            forall|j: int| from <= j < i ==> !occurs_at(hay@, needle@, j),
        decreases hay.len() + 1 - i,
    {
        if matches_at(hay, needle, i) {
            return Some(i);
        }
        if i == hay.len() {
            assert forall|j: int| from <= j implies !occurs_at(hay@, needle@, j) by {
                if j < i {
                }
            }
            return None;
        }
        i = i + 1;
    }
    None
}

/// Whether `needle` occurs in `hay` (`str::contains`).
pub fn contains(hay: &Vec<char>, needle: &Vec<char>) -> (r: bool)
    ensures
        r == occurs_in(hay@, needle@),
{
    match find_from(hay, needle, 0) {
        Some(i) => {
            assert(occurs_at(hay@, needle@, i as int));
            true
        },
        None => {
            assert forall|j: int| !occurs_at(hay@, needle@, j) by {
                if j >= 0 {
                }
            }
            false
        },
    }
}

/// The characters of a string slice, in order.
pub fn chars_of(s: &str) -> (r: Vec<char>)
    ensures
        r@ == s@,
{
    let mut out: Vec<char> = Vec::new();
    for c in it: s.chars()
        invariant
            out@ == it.seq().take(it.index() as int),
    {
        out.push(c);
        assert(out@ =~= it.seq().take(it.index() as int + 1));
    }
    assert(out@ =~= s@);
    out
}

/// A transcript in normal form: lowercased, `ё` read as `е`, every
/// character that is neither alphanumeric nor whitespace read as a space,
/// and whitespace collapsed to single spaces between words.
pub open spec fn normalized(text: Seq<char>) -> Seq<char> {
    squeeze(
        lowercase(text).map_values(|c: char| fold_yo(c)).map_values(|c: char| blank_symbol(c)),
    )
}

/// Normalised text is in collapsed form: no leading, trailing or doubled
/// spaces, and no whitespace but single spaces.
pub proof fn lemma_normalized_is_squeezed(text: Seq<char>)
    ensures
        is_squeezed(normalized(text)),
{
    lemma_squeeze_is_squeezed(
        lowercase(text).map_values(|c: char| fold_yo(c)).map_values(|c: char| blank_symbol(c)),
    );
}

/// Collapsing whitespace yields only spaces and non-whitespace characters
/// of the input.
pub proof fn lemma_squeeze_chars(s: Seq<char>)
    ensures
        forall|i: int|
            0 <= i < squeeze(s).len() ==> #[trigger] squeeze(s)[i] == ' ' || (!whitespace(
                squeeze(s)[i],
            ) && s.contains(squeeze(s)[i])),
    decreases s.len(),
{
    if s.len() > 0 {
        let d = s.drop_last();
        lemma_squeeze_chars(d);
        let p = squeeze(d);
        let r = squeeze(s);
        assert forall|i: int| 0 <= i < r.len() implies #[trigger] r[i] == ' ' || (!whitespace(r[i])
            && s.contains(r[i])) by {
            if i < p.len() {
                assert(r[i] == p[i]);
                if p[i] != ' ' {
                    let k = choose|k: int| 0 <= k < d.len() && d[k] == p[i];
                    assert(s[k] == d[k]);
                }
            } else if r[i] != ' ' {
                assert(r[i] == s.last());
                assert(s[s.len() - 1] == s.last());
            }
        }
    }
}

/// Normalised text holds only single spaces and alphanumeric characters
/// other than `ё`.
pub proof fn lemma_normalized_chars(text: Seq<char>)
    ensures
        forall|i: int|
            0 <= i < normalized(text).len() ==> #[trigger] normalized(text)[i] == ' ' || (
            alphanumeric(normalized(text)[i]) && normalized(text)[i] != 'ё'),
{
    let m = lowercase(text).map_values(|c: char| fold_yo(c)).map_values(
        |c: char| blank_symbol(c),
    );
    lemma_squeeze_chars(m);
    let n = normalized(text);
    assert forall|i: int| 0 <= i < n.len() implies #[trigger] n[i] == ' ' || (alphanumeric(n[i])
        && n[i] != 'ё') by {
        if n[i] != ' ' {
            let k = choose|k: int| 0 <= k < m.len() && m[k] == n[i];
            let l = lowercase(text);
            assert(m[k] == blank_symbol(fold_yo(l[k])));
        }
    }
}

/// Normalising normalised text changes nothing, provided lowercasing leaves
/// it as it is (lowercasing is done by `str::to_lowercase`, of which nothing
/// more is stated).
pub proof fn lemma_normalized_idempotent(text: Seq<char>)
    requires
        lowercase(normalized(text)) == normalized(text),
    ensures
        normalized(normalized(text)) == normalized(text),
{
    let n = normalized(text);
    lemma_normalized_chars(text);
    lemma_normalized_is_squeezed(text);
    let folded = n.map_values(|c: char| fold_yo(c));
    assert(folded =~= n) by {
        assert forall|i: int| 0 <= i < n.len() implies folded[i] == n[i] by {
            assert(n[i] == ' ' || (alphanumeric(n[i]) && n[i] != 'ё'));
        }
    }
    let blanked = folded.map_values(|c: char| blank_symbol(c));
    assert(blanked =~= n) by {
        assert forall|i: int| 0 <= i < n.len() implies blanked[i] == n[i] by {
            assert(n[i] == ' ' || (alphanumeric(n[i]) && n[i] != 'ё'));
            assert(whitespace(' '));
        }
    }
    lemma_squeezed_fixed(n);
}

/// The lowercase characters of a string (`str::to_lowercase`).
pub fn lowercase_chars(text: &str) -> (r: Vec<char>)
    ensures
        r@ == lowercase(text@),
{
    let lower = to_lowercase(text);
    chars_of(lower.as_str())
}

/// Appends `extra` to `out`.
pub fn append_chars(out: &mut Vec<char>, extra: &Vec<char>)
    ensures
        final(out)@ == old(out)@ + extra@,
{
    let ghost start = out@;
    let mut k: usize = 0;
    while k < extra.len()
        invariant
            k <= extra.len(),
            out@ == start + extra@.take(k as int),
        decreases extra.len() - k,
    {
        out.push(extra[k]);
        assert(extra@.take(k as int + 1) =~= extra@.take(k as int).push(extra@[k as int]));
        k = k + 1;
    }
    assert(extra@.take(extra@.len() as int) =~= extra@);
}

/// Replaces `ё` by `е` (`str::replace('ё', "е")`).
pub fn fold_yo_chars(s: &Vec<char>) -> (r: Vec<char>)
    ensures
        r@ == s@.map_values(|c: char| fold_yo(c)),
{
    let mut out: Vec<char> = Vec::new();
    let mut i: usize = 0;
    while i < s.len()
        invariant
            i <= s.len(),
            out@ == s@.take(i as int).map_values(|c: char| fold_yo(c)),
        decreases s.len() - i,
    {
        let c = s[i];
        if c == 'ё' {
            out.push('е');
        } else {
            out.push(c);
        }
        assert(s@.take(i as int + 1).map_values(|c: char| fold_yo(c)) =~= s@.take(
            i as int,
        ).map_values(|c: char| fold_yo(c)).push(fold_yo(s@[i as int])));
        i = i + 1;
    }
    assert(s@.take(s@.len() as int) =~= s@);
    out
}

/// Turns every character that is neither alphanumeric nor whitespace into a
/// space.
pub fn blank_symbols(s: &Vec<char>) -> (r: Vec<char>)
    ensures
        r@ == s@.map_values(|c: char| blank_symbol(c)),
{
    let mut out: Vec<char> = Vec::new();
    let mut i: usize = 0;
    while i < s.len()
        invariant
            i <= s.len(),
            out@ == s@.take(i as int).map_values(|c: char| blank_symbol(c)),
        decreases s.len() - i,
    {
        let c = s[i];
        if is_alphanumeric(c) || is_whitespace(c) {
            out.push(c);
        } else {
            out.push(' ');
        }
        assert(s@.take(i as int + 1).map_values(|c: char| blank_symbol(c)) =~= s@.take(
            i as int,
        ).map_values(|c: char| blank_symbol(c)).push(blank_symbol(s@[i as int])));
        i = i + 1;
    }
    assert(s@.take(s@.len() as int) =~= s@);
    out
}

// ------------------------------------------------------------------
// Replacement and trimming
// ------------------------------------------------------------------

/// Every occurrence of `from` in `s`, found left to right without overlap,
/// replaced by `to` (`str::replace` with a non-empty pattern).
pub open spec fn replace_all(s: Seq<char>, from: Seq<char>, to: Seq<char>) -> Seq<char>
    decreases s.len(),
{
    if s.len() == 0 || from.len() == 0 {
        s
    } else if occurs_at(s, from, 0) {
        to + replace_all(s.skip(from.len() as int), from, to)
    } else {
        seq![s[0]] + replace_all(s.skip(1), from, to)
    }
}

/// Replaces `from` by `to` as `replace_all` states.
pub fn replace_chars(s: &Vec<char>, from: &Vec<char>, to: &Vec<char>) -> (r: Vec<char>)
    requires
        from.len() > 0,
    ensures
        r@ == replace_all(s@, from@, to@),
{
    let mut out: Vec<char> = Vec::new();
    let mut i: usize = 0;
    assert(s@.skip(0) =~= s@);
    assert(out@ + replace_all(s@, from@, to@) =~= replace_all(s@, from@, to@));
    while i < s.len()
        invariant
            i <= s.len(),
            from@.len() > 0,
            out@ + replace_all(s@.skip(i as int), from@, to@) == replace_all(s@, from@, to@),
        decreases s.len() - i,
    {
        let ghost rest = s@.skip(i as int);
        assert(rest.len() > 0);
        if matches_at(s, from, i) {
            assert(rest.subrange(0, from@.len() as int) =~= s@.subrange(
                i as int,
                i + from@.len(),
            ));
            assert(rest.skip(from@.len() as int) =~= s@.skip(i + from@.len()));
            append_chars(&mut out, to);
            i = i + from.len();
        } else {
            assert(!occurs_at(rest, from@, 0)) by {
                if rest.len() >= from@.len() {
                    assert(rest.subrange(0, from@.len() as int) =~= s@.subrange(
                        i as int,
                        i + from@.len(),
                    ));
                }
            }
            assert(rest.skip(1) =~= s@.skip(i + 1));
            out.push(s[i]);
            i = i + 1;
        }
    }
    assert(s@.skip(i as int) =~= Seq::<char>::empty());
    assert(out@ + Seq::<char>::empty() =~= out@);
    out
}

/// `s` without leading whitespace.
pub open spec fn trim_start(s: Seq<char>) -> Seq<char>
    decreases s.len(),
{
    if s.len() > 0 && whitespace(s[0]) {
        trim_start(s.skip(1))
    } else {
        s
    }
}

/// `s` without trailing whitespace.
pub open spec fn trim_end(s: Seq<char>) -> Seq<char>
    decreases s.len(),
{
    if s.len() > 0 && whitespace(s.last()) {
        trim_end(s.drop_last())
    } else {
        s
    }
}

/// `s` without leading or trailing whitespace (`str::trim`).
pub open spec fn trim(s: Seq<char>) -> Seq<char> {
    trim_end(trim_start(s))
}

/// Removes leading and trailing whitespace.
pub fn trim_chars(s: &Vec<char>) -> (r: Vec<char>)
    ensures
        r@ == trim(s@),
{
    let mut a: usize = 0;
    assert(s@.skip(0) =~= s@);
    while a < s.len() && is_whitespace(s[a])
        invariant
            a <= s.len(),
            trim_start(s@) == trim_start(s@.skip(a as int)),
        decreases s.len() - a,
    {
        assert(s@.skip(a as int).skip(1) =~= s@.skip(a + 1));
        a = a + 1;
    }
    let mut b: usize = s.len();
    assert(trim_start(s@) == s@.subrange(a as int, b as int)) by {
        assert(s@.skip(a as int) =~= s@.subrange(a as int, s@.len() as int));
    }
    while b > a && is_whitespace(s[b - 1])
        invariant
            a <= b <= s.len(),
            trim(s@) == trim_end(s@.subrange(a as int, b as int)),
        decreases b,
    {
        assert(s@.subrange(a as int, b as int).drop_last() =~= s@.subrange(
            a as int,
            b - 1,
        ));
        b = b - 1;
    }
    let mut out: Vec<char> = Vec::new();
    let mut k: usize = a;
    while k < b
        invariant
            a <= k <= b,
            b <= s.len(),
            out@ == s@.subrange(a as int, k as int),
        decreases b - k,
    {
        out.push(s[k]);
        assert(s@.subrange(a as int, k + 1) =~= s@.subrange(a as int, k as int).push(
            s@[k as int],
        ));
        k = k + 1;
    }
    out
}

// ------------------------------------------------------------------
// Comparing and joining
// ------------------------------------------------------------------

/// Whether two character sequences are equal.
pub fn same_chars(a: &Vec<char>, b: &Vec<char>) -> (r: bool)
    ensures
        r == (a@ == b@),
{
    if a.len() != b.len() {
        return false;
    }
    let mut i: usize = 0;
    while i < a.len()
        invariant
            i <= a.len(),
            a.len() == b.len(),
            forall|x: int| 0 <= x < i ==> a@[x] == b@[x],
        decreases a.len() - i,
    {
        if a[i] != b[i] {
            return false;
        }
        i = i + 1;
    }
    assert(a@ =~= b@);
    true
}

/// The pieces one after the other.
pub open spec fn concat_views(pieces: Seq<Seq<char>>) -> Seq<char>
    decreases pieces.len(),
{
    if pieces.len() == 0 {
        seq![]
    } else {
        concat_views(pieces.drop_last()) + pieces.last()
    }
}

/// Joins string pieces into one string.
pub fn concat_all(pieces: &[&str]) -> (r: String)
    ensures
        r@ == concat_views(pieces@.map_values(|p: &str| p@)),
{
    let ghost ps = pieces@.map_values(|p: &str| p@);
    let mut out: Vec<char> = Vec::new();
    let mut k: usize = 0;
    while k < pieces.len()
        invariant
            k <= pieces.len(),
            ps == pieces@.map_values(|p: &str| p@),
            out@ == concat_views(ps.take(k as int)),
        decreases pieces.len() - k,
    {
        let piece = chars_of(pieces[k]);
        assert(ps[k as int] == piece@);
        assert(ps.take(k as int + 1).drop_last() =~= ps.take(k as int));
        append_chars(&mut out, &piece);
        k = k + 1;
    }
    assert(ps.take(pieces.len() as int) =~= ps);
    string_from_chars(&out)
}

} // verus!
