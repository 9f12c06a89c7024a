//! A simpler wake-word filter: the wake word may stand anywhere, even
//! inside a longer word, and every occurrence is blanked out.
use vstd::prelude::*;

use crate::command_parser::list_view;
use crate::text::{
    blank_symbol, blank_symbols, chars_of, contains, lemma_squeeze_is_squeezed,
    lemma_squeezed_fixed, lowercase, lowercase_chars, occurs_at, occurs_in, replace_all,
    replace_chars, squeeze, squeeze_chars, string_from_chars,
};

verus! {

/// The spellings of the wake word this filter knows.
pub open spec fn filter_variants() -> Seq<Seq<char>> {
    seq![
        "аллиот"@,
        "алиот"@,
        "алиод"@,
        "аллиод"@,
        "аллит"@,
        "алет"@,
        "алед"@,
        "али от"@,
        "алли от"@,
        "ал лиот"@,
        "а лиот"@,
        "элли от"@,
        "эллюд"@,
        "эллиут"@,
        "элют"@,
        "наллиот"@,
        "элиот"@,
        "элли от"@,
    ]
}

/// Lowercase, symbols as spaces, whitespace collapsed; `ё` is kept.
pub open spec fn normalized_keep_yo(text: Seq<char>) -> Seq<char> {
    squeeze(lowercase(text).map_values(|c: char| blank_symbol(c)))
}

/// Each string of `variants`, in order, replaced by `to` wherever it occurs.
pub open spec fn replace_each(s: Seq<char>, variants: Seq<Seq<char>>, to: Seq<char>) -> Seq<
    char,
>
    decreases variants.len(),
{
    if variants.len() == 0 {
        s
    } else {
        replace_all(replace_each(s, variants.drop_last(), to), variants.last(), to)
    }
}

/// Some variant occurs in the normalised text.
pub open spec fn mentions_wake_word(text: Seq<char>) -> bool {
    exists|k: int|
        0 <= k < filter_variants().len() && occurs_in(
            normalized_keep_yo(text),
            #[trigger] filter_variants()[k],
        )
}

/// The normalised text with every variant blanked out and whitespace
/// collapsed again.
pub open spec fn blanked_wake_word(text: Seq<char>) -> Seq<char> {
    squeeze(replace_each(normalized_keep_yo(text), filter_variants(), " "@))
}

fn variant_list() -> (r: &'static [&'static str])
    ensures
        list_view(r@) == filter_variants(),
{
    let r: &'static [&'static str] = &[
        "аллиот",
        "алиот",
        "алиод",
        "аллиод",
        "аллит",
        "алет",
        "алед",
        "али от",
        "алли от",
        "ал лиот",
        "а лиот",
        "элли от",
        "эллюд",
        "эллиут",
        "элют",
        "наллиот",
        "элиот",
        "элли от",
    ];
    assert(list_view(r@) =~= filter_variants());
    r
}

/// Every variant has at least one character.
proof fn lemma_variants_nonempty()
    ensures
        forall|k: int|
            0 <= k < filter_variants().len() ==> #[trigger] filter_variants()[k].len() > 0,
{
    reveal_strlit("а лиот");
    reveal_strlit("ал лиот");
    reveal_strlit("алед");
    reveal_strlit("алет");
    reveal_strlit("али от");
    reveal_strlit("алиод");
    reveal_strlit("алиот");
    reveal_strlit("алли от");
    reveal_strlit("аллиод");
    reveal_strlit("аллиот");
    reveal_strlit("аллит");
    reveal_strlit("наллиот");
    reveal_strlit("элиот");
    reveal_strlit("элли от");
    reveal_strlit("эллиут");
    reveal_strlit("эллюд");
    reveal_strlit("элют");
}

/// Lowercase, symbols as spaces, whitespace collapsed.
fn normalize(text: &str) -> (r: Vec<char>)
    ensures
        r@ == normalized_keep_yo(text@),
{
    let lower = lowercase_chars(text);
    let cleaned = blank_symbols(&lower);
    squeeze_chars(&cleaned)
}

/// Whether some spelling of the wake word occurs in the transcript.
pub fn contains_wake_word(text: &str) -> (r: bool)
    ensures
        r == mentions_wake_word(text@),
{
    let normalized_text = normalize(text);
    let variants = variant_list();
    let ghost vs = filter_variants();
    let mut k: usize = 0;
    while k < variants.len()
        invariant
            k <= variants.len(),
            list_view(variants@) == vs,
            vs == filter_variants(),
            normalized_text@ == normalized_keep_yo(text@),
            forall|j: int| 0 <= j < k ==> !occurs_in(normalized_text@, #[trigger] vs[j]),
        decreases variants.len() - k,
    {
        let variant = chars_of(variants[k]);
        assert(vs[k as int] == variant@);
        if contains(&normalized_text, &variant) {
            return true;
        }
        k = k + 1;
    }
    false
}

/// The transcript with every spelling of the wake word blanked out.
pub fn remove_wake_word(text: &str) -> (r: String)
    ensures
        r@ == blanked_wake_word(text@),
{
    let mut current = normalize(text);
    let variants = variant_list();
    let ghost vs = filter_variants();
    let space: Vec<char> = chars_of(" ");
    let mut k: usize = 0;
    while k < variants.len()
        invariant
            k <= variants.len(),
            list_view(variants@) == vs,
            vs == filter_variants(),
            space@ == " "@,
            current@ == replace_each(normalized_keep_yo(text@), vs.take(k as int), " "@),
        decreases variants.len() - k,
    {
        let variant = chars_of(variants[k]);
        assert(vs[k as int] == variant@);
        assert(vs.take(k as int + 1).drop_last() =~= vs.take(k as int));
        assert(variant@.len() > 0) by {
            lemma_variants_nonempty();
        }
        current = replace_chars(&current, &variant, &space);
        k = k + 1;
    }
    assert(vs.take(variants.len() as int) =~= vs);
    string_from_chars(&squeeze_chars(&current))
}

/// Replacing a string that does not occur changes nothing.
pub proof fn lemma_replace_absent(s: Seq<char>, from: Seq<char>, to: Seq<char>)
    requires
        !occurs_in(s, from),
    ensures
        replace_all(s, from, to) == s,
    decreases s.len(),
{
    if s.len() > 0 && from.len() > 0 {
        assert(!occurs_at(s, from, 0));
        assert(!occurs_in(s.skip(1), from)) by {
            if exists|i: int| occurs_at(s.skip(1), from, i) {
                let i = choose|i: int| occurs_at(s.skip(1), from, i);
                assert(s.subrange(i + 1, i + 1 + from.len()) =~= s.skip(1).subrange(
                    i,
                    i + from.len(),
                ));
                assert(occurs_at(s, from, i + 1));
            }
        }
        lemma_replace_absent(s.skip(1), from, to);
        assert(seq![s[0]] + s.skip(1) =~= s);
    }
}

/// Replacing strings none of which occurs changes nothing.
proof fn lemma_replace_each_absent(s: Seq<char>, variants: Seq<Seq<char>>, to: Seq<char>)
    requires
        forall|k: int| 0 <= k < variants.len() ==> !occurs_in(s, #[trigger] variants[k]),
    ensures
        replace_each(s, variants, to) == s,
    decreases variants.len(),
{
    if variants.len() > 0 {
        let d = variants.drop_last();
        assert forall|k: int| 0 <= k < d.len() implies !occurs_in(s, #[trigger] d[k]) by {
            assert(d[k] == variants[k]);
        }
        lemma_replace_each_absent(s, d, to);
        assert(variants.last() == variants[variants.len() - 1]);
        lemma_replace_absent(s, variants.last(), to);
    }
}

/// A transcript without the wake word comes back from `remove_wake_word`
/// merely normalised.
pub proof fn lemma_remove_without_wake_word(text: Seq<char>)
    requires
        !mentions_wake_word(text),
    ensures
        blanked_wake_word(text) == normalized_keep_yo(text),
{
    let n = normalized_keep_yo(text);
    lemma_replace_each_absent(n, filter_variants(), " "@);
    lemma_squeeze_is_squeezed(lowercase(text).map_values(|c: char| blank_symbol(c)));
    lemma_squeezed_fixed(n);
}

} // verus!
