//! Finding the wake word ("Аллиот" and the ways Whisper mishears it) in a
//! transcript, and cutting it off to get the command that follows.
//!
//! A variant counts only where it stands as whole words: the characters
//! just before and just after it are not alphanumeric. Of all variants the
//! match that starts first wins; of two that start at the same place, the
//! longer one.
use vstd::prelude::*;

use crate::command_parser::list_view;
use crate::text::{
    alphanumeric, blank_symbols, chars_of, find_from, fold_yo_chars, is_alphanumeric,
    lemma_normalized_is_squeezed, lemma_squeeze_suffix_is_trim, lowercase_chars,
    normalized, occurs_at, squeeze, squeeze_chars, string_from_chars, trim, trim_chars,
};

verus! {

/// The spellings of the wake word that Whisper produces.
pub open spec fn wake_word_variants() -> Seq<Seq<char>> {
    seq![
        "аллиот"@,
        "алиот"@,
        "алиод"@,
        "аллиод"@,
        "аллит"@,
        "алет"@,
        "алед"@,
        "алло"@,
        "али от"@,
        "алли от"@,
        "ал лиот"@,
        "а лиот"@,
        "элиот"@,
        "элиод"@,
        "эллиот"@,
        "эллот"@,
        "эллиод"@,
        "элли от"@,
        "элли"@,
        "эли"@,
        "эло"@,
        "элло"@,
        "эллюд"@,
        "эллиут"@,
        "элют"@,
        "элет"@,
        "эллото"@,
        "эллут"@,
        "айлот"@,
        "наллиот"@,
        "налиот"@,
    ]
}

/// The span `[start, end)` of `text` stands as whole words: the character
/// before it and the character after it, where there are any, are not
/// alphanumeric.
pub open spec fn at_word_boundary(text: Seq<char>, start: int, end: int) -> bool {
    &&& (start == 0 || !alphanumeric(text[start - 1]))
    &&& (end >= text.len() || !alphanumeric(text[end]))
}

/// Where the scan for `variant` from position `from` on finds it as whole
/// words. The scan takes the next occurrence; if that is not at a word
/// boundary it goes on after the end of that occurrence, so occurrences
/// that overlap a rejected one are not looked at.
pub open spec fn boundary_match_from(text: Seq<char>, variant: Seq<char>, from: int) -> Option<
    int,
>
    decreases text.len() + 1 - from,
{
    if from < 0 || from > text.len() || variant.len() == 0 {
        None
    } else if occurs_at(text, variant, from) {
        if at_word_boundary(text, from, from + variant.len()) {
            Some(from)
        } else {
            boundary_match_from(text, variant, from + variant.len())
        }
    } else {
        boundary_match_from(text, variant, from + 1)
    }
}

/// The best whole-word match among `variants`, as the span it covers:
/// variants are tried in order, and a later one replaces the current best
/// when it starts earlier, or at the same place and is longer.
pub open spec fn best_match(text: Seq<char>, variants: Seq<Seq<char>>) -> Option<(int, int)>
    decreases variants.len(),
{
    if variants.len() == 0 {
        None
    } else {
        let prev = best_match(text, variants.drop_last());
        let v = variants.last();
        match boundary_match_from(text, v, 0) {
            None => prev,
            Some(s) => match prev {
                None => Some((s, s + v.len())),
                Some(current) => if s < current.0 || (s == current.0 && v.len() > current.1
                    - current.0) {
                    Some((s, s + v.len()))
                } else {
                    prev
                },
            },
        }
    }
}

/// Some variant of the wake word stands as whole words in the normalised
/// transcript.
pub open spec fn has_wake_word(text: Seq<char>) -> bool {
    exists|k: int|
        0 <= k < wake_word_variants().len() && (#[trigger] boundary_match_from(
            normalized(text),
            wake_word_variants()[k],
            0,
        )) is Some
}

/// The command after the wake word: the normalised transcript after the
/// best match, trimmed; nothing when there is no wake word.
pub open spec fn command_after_wake_word(text: Seq<char>) -> Option<Seq<char>> {
    let n = normalized(text);
    match best_match(n, wake_word_variants()) {
        Some(span) => Some(trim(n.skip(span.1))),
        None => None,
    }
}

/// The normalised transcript without the wake word and what precedes it,
/// with whitespace collapsed; the whole normalised transcript when there is
/// no wake word.
pub open spec fn without_wake_word(text: Seq<char>) -> Seq<char> {
    let n = normalized(text);
    match best_match(n, wake_word_variants()) {
        Some(span) => squeeze(n.skip(span.1)),
        None => n,
    }
}

/// The span of an exec match as integers.
pub open spec fn span_view(o: Option<(usize, usize)>) -> Option<(int, int)> {
    match o {
        Some(p) => Some((p.0 as int, p.1 as int)),
        None => None,
    }
}

// ------------------------------------------------------------------
// Scanning lemmas
// ------------------------------------------------------------------

/// Positions where the variant does not occur are passed over.
proof fn lemma_scan_skips(text: Seq<char>, v: Seq<char>, from: int, i: int)
    requires
        v.len() > 0,
        0 <= from <= i <= text.len(),
        forall|j: int| from <= j < i ==> !occurs_at(text, v, j),
    ensures
        boundary_match_from(text, v, from) == boundary_match_from(text, v, i),
    decreases i - from,
{
    if from < i {
        lemma_scan_skips(text, v, from + 1, i);
    }
}

/// Without further occurrences the scan finds nothing.
proof fn lemma_scan_none(text: Seq<char>, v: Seq<char>, from: int)
    requires
        v.len() > 0,
        0 <= from,
        forall|j: int| from <= j ==> !occurs_at(text, v, j),
    ensures
        boundary_match_from(text, v, from) is None,
    decreases text.len() + 1 - from,
{
    if from <= text.len() {
        lemma_scan_none(text, v, from + 1);
    }
}

/// A found match lies inside the text.
proof fn lemma_scan_in_bounds(text: Seq<char>, v: Seq<char>, from: int)
    ensures
        boundary_match_from(text, v, from) matches Some(s) ==> 0 <= s && s + v.len() <= text.len(),
    decreases text.len() + 1 - from,
{
    if 0 <= from <= text.len() && v.len() > 0 {
        if occurs_at(text, v, from) {
            if !at_word_boundary(text, from, from + v.len()) {
                lemma_scan_in_bounds(text, v, from + v.len());
            }
        } else {
            lemma_scan_in_bounds(text, v, from + 1);
        }
    }
}

/// The best match exists exactly when some variant matches.
proof fn lemma_best_match_some(text: Seq<char>, variants: Seq<Seq<char>>)
    ensures
        best_match(text, variants) is Some <==> exists|k: int|
            0 <= k < variants.len() && (#[trigger] boundary_match_from(
                text,
                variants[k],
                0,
            )) is Some,
    decreases variants.len(),
{
    if variants.len() > 0 {
        let d = variants.drop_last();
        lemma_best_match_some(text, d);
        if best_match(text, variants) is Some {
            if boundary_match_from(text, variants.last(), 0) is Some {
                assert(variants[variants.len() - 1] == variants.last());
            } else {
                let k = choose|k: int|
                    0 <= k < d.len() && (#[trigger] boundary_match_from(text, d[k], 0)) is Some;
                assert(variants[k] == d[k]);
            }
        } else {
            assert forall|k: int| 0 <= k < variants.len() implies !((#[trigger] boundary_match_from(
                text,
                variants[k],
                0,
            )) is Some) by {
                if k < d.len() {
                    assert(variants[k] == d[k]);
                }
            }
        }
    }
}

/// The best match lies inside the text.
proof fn lemma_best_match_in_bounds(text: Seq<char>, variants: Seq<Seq<char>>)
    ensures
        best_match(text, variants) matches Some(span) ==> 0 <= span.0 <= span.1 <= text.len(),
    decreases variants.len(),
{
    if variants.len() > 0 {
        lemma_best_match_in_bounds(text, variants.drop_last());
        lemma_scan_in_bounds(text, variants.last(), 0);
    }
}

/// Every variant of the wake word has at least one character.
proof fn lemma_variants_nonempty()
    ensures
        forall|k: int|
            0 <= k < wake_word_variants().len() ==> #[trigger] wake_word_variants()[k].len() > 0,
{
    reveal_strlit("аллиот");
    reveal_strlit("алиот");
    reveal_strlit("алиод");
    reveal_strlit("аллиод");
    reveal_strlit("аллит");
    reveal_strlit("алет");
    reveal_strlit("алед");
    reveal_strlit("алло");
    reveal_strlit("али от");
    reveal_strlit("алли от");
    reveal_strlit("ал лиот");
    reveal_strlit("а лиот");
    reveal_strlit("элиот");
    reveal_strlit("элиод");
    reveal_strlit("эллиот");
    reveal_strlit("эллот");
    reveal_strlit("эллиод");
    reveal_strlit("элли от");
    reveal_strlit("элли");
    reveal_strlit("эли");
    reveal_strlit("эло");
    reveal_strlit("элло");
    reveal_strlit("эллюд");
    reveal_strlit("эллиут");
    reveal_strlit("элют");
    reveal_strlit("элет");
    reveal_strlit("эллото");
    reveal_strlit("эллут");
    reveal_strlit("айлот");
    reveal_strlit("наллиот");
    reveal_strlit("налиот");
}

// ------------------------------------------------------------------
// Implementation
// ------------------------------------------------------------------

fn variant_list() -> (r: &'static [&'static str])
    ensures
        list_view(r@) == wake_word_variants(),
{
    let r: &'static [&'static str] = &[
        "аллиот",
        "алиот",
        "алиод",
        "аллиод",
        "аллит",
        "алет",
        "алед",
        "алло",
        "али от",
        "алли от",
        "ал лиот",
        "а лиот",
        "элиот",
        "элиод",
        "эллиот",
        "эллот",
        "эллиод",
        "элли от",
        "элли",
        "эли",
        "эло",
        "элло",
        "эллюд",
        "эллиут",
        "элют",
        "элет",
        "эллото",
        "эллут",
        "айлот",
        "наллиот",
        "налиот",
    ];
    assert(list_view(r@) =~= wake_word_variants());
    r
}

/// Lowercase, `ё` as `е`, symbols as spaces, whitespace collapsed.
fn normalize(text: &str) -> (r: Vec<char>)
    ensures
        r@ == normalized(text@),
{
    let lower = lowercase_chars(text);
    let folded = fold_yo_chars(&lower);
    let cleaned = blank_symbols(&folded);
    squeeze_chars(&cleaned)
}

/// Whether the span `[start, end)` stands as whole words.
fn is_word_boundary(text: &Vec<char>, start: usize, end: usize) -> (r: bool)
    requires
        start <= text.len(),
    ensures
        r == at_word_boundary(text@, start as int, end as int),
{
    let before_ok = if start == 0 {
        true
    } else {
        !is_alphanumeric(text[start - 1])
    };
    let after_ok = if end >= text.len() {
        true
    } else {
        !is_alphanumeric(text[end])
    };
    before_ok && after_ok
}

/// The first whole-word occurrence of `variant`, scanning as
/// `boundary_match_from` states.
fn first_boundary_match(text: &Vec<char>, variant: &Vec<char>) -> (r: Option<usize>)
    requires
        variant.len() > 0,
    ensures
        match r {
            Some(s) => boundary_match_from(text@, variant@, 0) == Some(s as int),
            None => boundary_match_from(text@, variant@, 0) is None,
        },
{
    let mut search_from: usize = 0;
    while search_from <= text.len()
        invariant
            variant.len() > 0,
            search_from <= text.len() + 1,
            boundary_match_from(text@, variant@, 0) == boundary_match_from(
                text@,
                variant@,
                search_from as int,
            ),
        decreases text.len() + 1 - search_from,
    {
        match find_from(text, variant, search_from) {
            None => {
                proof {
                    lemma_scan_none(text@, variant@, search_from as int);
                }
                return None;
            },
            Some(start) => {
                proof {
                    lemma_scan_skips(text@, variant@, search_from as int, start as int);
                }
                let end = start + variant.len();
                if is_word_boundary(text, start, end) {
                    return Some(start);
                }
                search_from = end;
            },
        }
    }
    None
}

/// Whether `variant` stands as whole words somewhere in `text`.
fn contains_variant(text: &Vec<char>, variant: &Vec<char>) -> (r: bool)
    requires
        variant.len() > 0,
    ensures
        r == (boundary_match_from(text@, variant@, 0) is Some),
{
    first_boundary_match(text, variant).is_some()
}

/// The span of the best wake-word match in normalised text.
fn find_wake_word(text: &Vec<char>) -> (r: Option<(usize, usize)>)
    ensures
        span_view(r) == best_match(text@, wake_word_variants()),
{
    let variants = variant_list();
    let ghost vs = wake_word_variants();
    let mut best_match_span: Option<(usize, usize)> = None;
    let mut k: usize = 0;
    while k < variants.len()
        invariant
            k <= variants.len(),
            list_view(variants@) == vs,
            vs == wake_word_variants(),
            span_view(best_match_span) == best_match(text@, vs.take(k as int)),
            best_match_span matches Some(span) ==> span.0 <= span.1 <= text.len(),
        decreases variants.len() - k,
    {
        let variant = chars_of(variants[k]);
        assert(vs[k as int] == variant@);
        assert(vs.take(k as int + 1).drop_last() =~= vs.take(k as int));
        assert(vs.take(k as int + 1).last() == variant@);
        assert(variant@.len() > 0) by {
            lemma_variants_nonempty();
        }
        proof {
            lemma_scan_in_bounds(text@, variant@, 0);
        }
        match first_boundary_match(text, &variant) {
            None => {},
            Some(start) => {
                assert(start + variant.len() <= text.len());
                let end = start + variant.len();
                match best_match_span {
                    None => {
                        best_match_span = Some((start, end));
                    },
                    Some((current_start, current_end)) => {
                        let current_length = current_end - current_start;
                        let new_length = end - start;
                        if start < current_start || (start == current_start && new_length
                            > current_length) {
                            best_match_span = Some((start, end));
                        }
                    },
                }
            },
        }
        k = k + 1;
    }
    assert(vs.take(variants.len() as int) =~= vs);
    best_match_span
}

/// Whether the transcript holds the wake word as whole words.
pub fn contains_wake_word(text: &str) -> (r: bool)
    ensures
        r == has_wake_word(text@),
{
    let normalized_text = normalize(text);
    let variants = variant_list();
    let ghost vs = wake_word_variants();
    let mut k: usize = 0;
    while k < variants.len()
        invariant
            k <= variants.len(),
            list_view(variants@) == vs,
            vs == wake_word_variants(),
            normalized_text@ == normalized(text@),
            forall|j: int|
                0 <= j < k ==> (#[trigger] boundary_match_from(normalized_text@, vs[j], 0)) is None,
        decreases variants.len() - k,
    {
        let variant = chars_of(variants[k]);
        assert(vs[k as int] == variant@);
        assert(variant@.len() > 0) by {
            lemma_variants_nonempty();
        }
        if contains_variant(&normalized_text, &variant) {
            return true;
        }
        k = k + 1;
    }
    false
}

/// The command that follows the wake word, or nothing when the transcript
/// has no wake word. For example `"аллиот"` gives an empty command,
/// `"привет аллиот открой blender"` gives `"открой blender"`, and
/// `"открой blender"` gives nothing.
pub fn extract_command(text: &str) -> (r: Option<String>)
    ensures
        match r {
            Some(c) => command_after_wake_word(text@) == Some(c@),
            None => command_after_wake_word(text@) is None,
        },
{
    let normalized_text = normalize(text);
    let (_start, end) = match find_wake_word(&normalized_text) {
        Some(span) => span,
        None => return None,
    };
    proof {
        lemma_best_match_in_bounds(normalized_text@, wake_word_variants());
    }
    let rest = suffix(&normalized_text, end);
    let command = trim_chars(&rest);
    Some(string_from_chars(&command))
}

/// The normalised transcript with the wake word, and everything before it,
/// removed.
pub fn remove_wake_word(text: &str) -> (r: String)
    ensures
        r@ == without_wake_word(text@),
{
    let normalized_text = normalize(text);
    let (_start, end) = match find_wake_word(&normalized_text) {
        Some(span) => span,
        None => return string_from_chars(&normalized_text),
    };
    proof {
        lemma_best_match_in_bounds(normalized_text@, wake_word_variants());
    }
    let rest = suffix(&normalized_text, end);
    string_from_chars(&squeeze_chars(&rest))
}

/// The characters of `s` from position `from` on.
fn suffix(s: &Vec<char>, from: usize) -> (r: Vec<char>)
    requires
        from <= s.len(),
    ensures
        r@ == s@.skip(from as int),
{
    let mut out: Vec<char> = Vec::new();
    let mut k: usize = from;
    while k < s.len()
        invariant
            from <= k <= s.len(),
            out@ == s@.subrange(from as int, k as int),
        decreases s.len() - k,
    {
        out.push(s[k]);
        assert(s@.subrange(from as int, k + 1) =~= s@.subrange(from as int, k as int).push(
            s@[k as int],
        ));
        k = k + 1;
    }
    assert(s@.subrange(from as int, s@.len() as int) =~= s@.skip(from as int));
    out
}

// ------------------------------------------------------------------
// Laws
// ------------------------------------------------------------------

/// A match found by the scan is an occurrence of the variant with no
/// alphanumeric character right before it or right after it.
proof fn lemma_scan_match_whole_word(text: Seq<char>, v: Seq<char>, from: int)
    ensures
        boundary_match_from(text, v, from) matches Some(s) ==> {
            &&& occurs_at(text, v, s)
            &&& (s == 0 || !alphanumeric(text[s - 1]))
            &&& (s + v.len() >= text.len() || !alphanumeric(text[s + v.len()]))
        },
    decreases text.len() + 1 - from,
{
    if 0 <= from <= text.len() && v.len() > 0 {
        if occurs_at(text, v, from) {
            if !at_word_boundary(text, from, from + v.len()) {
                lemma_scan_match_whole_word(text, v, from + v.len());
            }
        } else {
            lemma_scan_match_whole_word(text, v, from + 1);
        }
    }
}

/// The best match is the span of one of the variants, standing as whole
/// words.
proof fn lemma_best_match_whole_word(text: Seq<char>, variants: Seq<Seq<char>>)
    ensures
        best_match(text, variants) matches Some(span) ==> {
            &&& (span.0 == 0 || !alphanumeric(text[span.0 - 1]))
            &&& (span.1 >= text.len() || !alphanumeric(text[span.1]))
            &&& exists|k: int|
                0 <= k < variants.len() && occurs_at(text, #[trigger] variants[k], span.0)
                    && span.1 == span.0 + variants[k].len()
        },
    decreases variants.len(),
{
    if variants.len() > 0 {
        let d = variants.drop_last();
        lemma_best_match_whole_word(text, d);
        lemma_scan_match_whole_word(text, variants.last(), 0);
        if let Some(span) = best_match(text, variants) {
            if boundary_match_from(text, variants.last(), 0) == Some(span.0) && span.1 == span.0
                + variants.last().len() {
                assert(variants[variants.len() - 1] == variants.last());
            } else {
                assert(best_match(text, variants) == best_match(text, d));
                let k = choose|k: int|
                    0 <= k < d.len() && occurs_at(text, #[trigger] d[k], span.0) && span.1
                        == span.0 + d[k].len();
                assert(variants[k] == d[k]);
            }
        }
    }
}

/// The wake word counts only as whole words: whenever a wake word is
/// reported, some variant occurs in the normalised transcript with no
/// alphanumeric character right before it or right after it, and the span
/// after which the command is taken is such an occurrence. A variant that
/// only occurs inside a longer word never wakes the assistant.
pub proof fn lemma_wake_word_is_whole_word(text: Seq<char>)
    ensures
        ({
            let n = normalized(text);
            let vs = wake_word_variants();
            &&& has_wake_word(text) ==> exists|k: int, s: int|
                0 <= k < vs.len() && #[trigger] occurs_at(n, vs[k], s) && (s == 0
                    || !alphanumeric(n[s - 1])) && (s + vs[k].len() >= n.len() || !alphanumeric(
                    n[s + vs[k].len()],
                ))
            &&& best_match(n, vs) matches Some(span) ==> {
                &&& (span.0 == 0 || !alphanumeric(n[span.0 - 1]))
                &&& (span.1 >= n.len() || !alphanumeric(n[span.1]))
                &&& exists|k: int|
                    0 <= k < vs.len() && occurs_at(n, #[trigger] vs[k], span.0) && span.1
                        == span.0 + vs[k].len()
            }
        }),
{
    let n = normalized(text);
    let vs = wake_word_variants();
    lemma_best_match_whole_word(n, vs);
    if has_wake_word(text) {
        let k = choose|k: int|
            0 <= k < vs.len() && (#[trigger] boundary_match_from(n, vs[k], 0)) is Some;
        lemma_scan_match_whole_word(n, vs[k], 0);
        let s = boundary_match_from(n, vs[k], 0)->0;
        assert(occurs_at(n, vs[k], s));
    }
}

/// A command can be extracted from a transcript exactly when the
/// transcript contains the wake word.
pub proof fn lemma_extract_iff_contains(text: Seq<char>)
    ensures
        command_after_wake_word(text) is Some <==> has_wake_word(text),
{
    lemma_best_match_some(normalized(text), wake_word_variants());
}

/// Removing the wake word gives the extracted command when there is one,
/// and the normalised transcript when there is none.
pub proof fn lemma_remove_agrees_with_extract(text: Seq<char>)
    ensures
        without_wake_word(text) == (match command_after_wake_word(text) {
            Some(c) => c,
            None => normalized(text),
        }),
{
    let n = normalized(text);
    lemma_best_match_in_bounds(n, wake_word_variants());
    match best_match(n, wake_word_variants()) {
        Some(span) => {
            lemma_normalized_is_squeezed(text);
            lemma_squeeze_suffix_is_trim(n, span.1);
        },
        None => {},
    }
}

} // verus!
