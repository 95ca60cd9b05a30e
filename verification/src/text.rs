use vstd::prelude::*;

verus! {

/// `parts` joined with `sep` between each two neighbours, as `[T]::join` does.
pub open spec fn seq_join(parts: Seq<Seq<char>>, sep: Seq<char>) -> Seq<char>
    decreases parts.len(),
{
    if parts.len() == 0 {
        Seq::empty()
    } else if parts.len() == 1 {
        parts[0]
    } else {
        seq_join(parts.drop_last(), sep) + sep + parts.last()
    }
}

/// The views of a list of strings.
pub open spec fn string_views(parts: Seq<String>) -> Seq<Seq<char>> {
    parts.map_values(|p: String| p@)
}

/// Joins `parts` with `sep` between each two neighbours.
pub fn join_strings(parts: &Vec<String>, sep: &str) -> (res: String)
    ensures
        res@ == seq_join(string_views(parts@), sep@),
{
    let ghost views = string_views(parts@);
    let mut res = String::new();
    let mut i: usize = 0;
    while i < parts.len()
        invariant
            i <= parts.len(),
            views == string_views(parts@),
            views.len() == parts@.len(),
            res@ == seq_join(views.take(i as int), sep@),
        decreases parts.len() - i,
    {
        if i != 0 {
            res.append(sep);
        }
        res.append(parts[i].as_str());
        assert(views.take((i + 1) as int).drop_last() =~= views.take(i as int));
        assert(views.take((i + 1) as int).last() == parts@[i as int]@);
        i = i + 1;
    }
    assert(views.take(parts.len() as int) =~= views);
    res
}

/// The decimal digit for `d`, which is below ten.
pub open spec fn digit_char(d: nat) -> char {
    (d + 48) as char
}

/// The decimal notation of `n`, without leading zeros, as `u16`'s `Display` writes it.
pub open spec fn decimal_text(n: nat) -> Seq<char>
    decreases n,
{
    if n < 10 {
        seq![digit_char(n)]
    } else {
        decimal_text(n / 10).push(digit_char(n % 10))
    }
}

/// Whether `word` occurs in `text`.
pub open spec fn mentions(text: Seq<char>, word: Seq<char>) -> bool {
    exists|i: int|
        0 <= i && i + word.len() <= text.len() && #[trigger] text.subrange(i, i + word.len())
            == word
}

/// A word stays in a text when more text is put behind it.
pub proof fn lemma_mentions_append(text: Seq<char>, more: Seq<char>, word: Seq<char>)
    requires
        mentions(text, word),
    ensures
        mentions(text + more, word),
{
    let i = choose|i: int|
        0 <= i && i + word.len() <= text.len() && #[trigger] text.subrange(i, i + word.len())
            == word;
    assert((text + more).subrange(i, i + word.len()) =~= text.subrange(i, i + word.len()));
}

/// A word stays in a text when more text is put before it.
pub proof fn lemma_mentions_prepend(more: Seq<char>, text: Seq<char>, word: Seq<char>)
    requires
        mentions(text, word),
    ensures
        mentions(more + text, word),
{
    let i = choose|i: int|
        0 <= i && i + word.len() <= text.len() && #[trigger] text.subrange(i, i + word.len())
            == word;
    let j = i + more.len();
    assert((more + text).subrange(j, j + word.len()) =~= text.subrange(i, i + word.len()));
}

/// Every text mentions itself.
pub proof fn lemma_mentions_self(text: Seq<char>)
    ensures
        mentions(text, text),
{
    let i: int = 0;
    assert(text.subrange(i, i + text.len()) =~= text);
}

/// Each part of a join occurs in it.
pub proof fn lemma_join_mentions_part(parts: Seq<Seq<char>>, sep: Seq<char>, k: int)
    requires
        0 <= k < parts.len(),
    ensures
        mentions(seq_join(parts, sep), parts[k]),
    decreases parts.len(),
{
    if parts.len() == 1 {
        lemma_mentions_self(parts[0]);
    } else if k == parts.len() - 1 {
        lemma_mentions_self(parts.last());
        lemma_mentions_prepend(seq_join(parts.drop_last(), sep) + sep, parts.last(), parts[k]);
    } else {
        lemma_join_mentions_part(parts.drop_last(), sep, k);
        assert(parts.drop_last()[k] == parts[k]);
        lemma_mentions_append(seq_join(parts.drop_last(), sep), sep + parts.last(), parts[k]);
        assert(seq_join(parts.drop_last(), sep) + (sep + parts.last()) =~= seq_join(
            parts.drop_last(),
            sep,
        ) + sep + parts.last());
    }
}

} // verus!
