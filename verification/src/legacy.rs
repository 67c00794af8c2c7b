//! Legacy address texts, in which the protocol now named `p2p` goes by `ipfs`.
use vstd::prelude::*;

verus! {

/// The parts of `text` between its slashes; a text with `n` slashes has `n + 1` parts.
pub open spec fn split_parts(text: Seq<char>) -> Seq<Seq<char>>
    decreases text.len(),
{
    if text.len() == 0 {
        seq![Seq::empty()]
    } else {
        let before = split_parts(text.drop_last());
        if text.last() == '/' {
            before.push(Seq::empty())
        } else {
            before.drop_last().push(before.last().push(text.last()))
        }
    }
}

/// The parts in order, with one slash between each two neighbours.
pub open spec fn join_parts(parts: Seq<Seq<char>>) -> Seq<char>
    decreases parts.len(),
{
    if parts.len() == 0 {
        Seq::empty()
    } else if parts.len() == 1 {
        parts[0]
    } else {
        join_parts(parts.drop_last()) + seq!['/'] + parts.last()
    }
}

/// The current spelling of one part: the legacy protocol name `ipfs` is now `p2p`.
pub open spec fn modern_part(part: Seq<char>) -> Seq<char> {
    if part == "ipfs"@ {
        "p2p"@
    } else {
        part
    }
}

/// The parts of a legacy address text, each in its current spelling.
pub open spec fn modern_parts(text: Seq<char>) -> Seq<Seq<char>> {
    let parts = split_parts(text);
    Seq::new(parts.len(), |i: int| modern_part(parts[i]))
}

/// The address text that a legacy address text stands for.
pub open spec fn sanitized(text: Seq<char>) -> Seq<char> {
    join_parts(modern_parts(text))
}

/// The texts that a sequence of strings holds.
pub open spec fn texts(parts: Seq<String>) -> Seq<Seq<char>> {
    Seq::new(parts.len(), |i: int| parts[i]@)
}

proof fn lemma_split_nonempty(text: Seq<char>)
    ensures
        split_parts(text).len() > 0,
    decreases text.len(),
{
    if text.len() > 0 {
        lemma_split_nonempty(text.drop_last());
    }
}

/// Splits a text at its slashes.
fn split_on_slash(text: &str) -> (parts: Vec<String>)
    ensures
        texts(parts@) == split_parts(text@),
{
    let mut parts: Vec<String> = Vec::new();
    let mut start: usize = 0;
    let mut at: usize = 0;
    let len: usize = text.unicode_len();
    assert(text@.take(0) =~= Seq::empty());
    assert(texts(parts@).push(text@.subrange(0, 0)) =~= split_parts(text@.take(0)));
    for c in chars: text.chars()
        invariant
            chars.seq() == text@,
            len == text@.len(),
            at == chars.index(),
            start <= at <= len,
            texts(parts@).push(text@.subrange(start as int, at as int)) == split_parts(
                text@.take(at as int),
            ),
    {
        let ghost seen = texts(parts@).push(text@.subrange(start as int, at as int));
        assert(text@.take(at + 1).drop_last() =~= text@.take(at as int));
        assert(text@.take(at + 1).last() == c);
        if c == '/' {
            parts.push(text.substring_char(start, at).to_owned());
            start = at + 1;
            assert(texts(parts@) =~= seen);
            assert(text@.subrange(start as int, at + 1) =~= Seq::empty());
        } else {
            assert(seen.drop_last() =~= texts(parts@));
            assert(text@.subrange(start as int, at + 1) =~= seen.last().push(c));
        }
        at = at + 1;
    }
    let ghost seen = texts(parts@).push(text@.subrange(start as int, len as int));
    parts.push(text.substring_char(start, len).to_owned());
    assert(texts(parts@) =~= seen);
    assert(text@.take(len as int) =~= text@);
    parts
}

/// Joins parts with slashes.
fn join_with_slash(parts: &Vec<String>) -> (text: String)
    ensures
        text@ == join_parts(texts(parts@)),
{
    let mut text = String::new();
    let ghost all = texts(parts@);
    for i in 0..parts.len()
        invariant
            all == texts(parts@),
            text@ == join_parts(all.take(i as int)),
    {
        if i != 0 {
            text.append("/");
            proof {
                reveal_strlit("/");
            }
            assert("/"@ =~= seq!['/']);
        }
        text.append(parts[i].as_str());
        assert(all.take(i + 1).drop_last() =~= all.take(i as int));
        assert(text@ =~= join_parts(all.take(i + 1)));
    }
    assert(all.take(parts.len() as int) =~= all);
    text
}

/// Rewrites a legacy address text: every part that reads `ipfs` becomes `p2p`, and nothing else
/// changes.
pub fn sanitize(text: &str) -> (res: String)
    ensures
        res@ == sanitized(text@),
{
    let parts = split_on_slash(text);
    let mut modern: Vec<String> = Vec::new();
    for i in 0..parts.len()
        invariant
            texts(parts@) == split_parts(text@),
            texts(modern@) == modern_parts(text@).take(i as int),
    {
        assert(texts(parts@)[i as int] == parts[i as int]@);
        let ghost before = texts(modern@);
        if parts[i] == "ipfs".to_owned() {
            modern.push("p2p".to_owned());
        } else {
            modern.push(parts[i].clone());
        }
        assert(texts(modern@) =~= before.push(modern_part(parts[i as int]@)));
        assert(texts(modern@) =~= modern_parts(text@).take(i + 1));
    }
    assert(modern_parts(text@).take(parts.len() as int) =~= modern_parts(text@));
    join_with_slash(&modern)
}

/// A text in which no slash occurs.
pub open spec fn slash_free(text: Seq<char>) -> bool {
    !text.contains('/')
}

proof fn lemma_split_slash_free(text: Seq<char>)
    requires
        slash_free(text),
    ensures
        split_parts(text) == seq![text],
    decreases text.len(),
{
    if text.len() > 0 {
        let init = text.drop_last();
        assert forall|i: int| 0 <= i < init.len() implies init[i] != '/' by {
            assert(text.contains(text[i]));
        }
        assert(text.contains(text.last()));
        lemma_split_slash_free(init);
        assert(split_parts(init).last() == init);
        assert(init.push(text.last()) =~= text);
        assert(split_parts(text) =~= seq![text]);
    } else {
        assert(text =~= Seq::empty());
    }
}

proof fn lemma_split_at_slash(left: Seq<char>, right: Seq<char>)
    ensures
        split_parts(left + seq!['/'] + right) == split_parts(left) + split_parts(right),
    decreases right.len(),
{
    let whole = left + seq!['/'] + right;
    lemma_split_nonempty(right);
    if right.len() == 0 {
        assert(whole.drop_last() =~= left);
        assert(split_parts(whole) =~= split_parts(left) + split_parts(right));
    } else {
        let init = right.drop_last();
        assert(whole.drop_last() =~= left + seq!['/'] + init);
        lemma_split_at_slash(left, init);
        lemma_split_nonempty(init);
        let before = split_parts(left) + split_parts(init);
        assert(before.last() == split_parts(init).last());
        assert(before.drop_last() =~= split_parts(left) + split_parts(init).drop_last());
        assert(split_parts(whole) =~= split_parts(left) + split_parts(right));
    }
}

proof fn lemma_join_append(left: Seq<Seq<char>>, right: Seq<Seq<char>>)
    requires
        left.len() > 0,
        right.len() > 0,
    ensures
        join_parts(left + right) == join_parts(left) + seq!['/'] + join_parts(right),
    decreases right.len(),
{
    let whole = left + right;
    assert(whole.last() == right.last());
    if right.len() == 1 {
        assert(whole.drop_last() =~= left);
    } else {
        assert(whole.drop_last() =~= left + right.drop_last());
        lemma_join_append(left, right.drop_last());
        assert(join_parts(whole) =~= join_parts(left) + seq!['/'] + join_parts(right));
    }
}

proof fn lemma_parts_slash_free(text: Seq<char>)
    ensures
        forall|i: int| 0 <= i < split_parts(text).len() ==> slash_free(#[trigger] split_parts(text)[i]),
    decreases text.len(),
{
    if text.len() > 0 {
        let init = text.drop_last();
        lemma_parts_slash_free(init);
        lemma_split_nonempty(init);
        let before = split_parts(init);
        assert forall|i: int| 0 <= i < split_parts(text).len() implies slash_free(
            #[trigger] split_parts(text)[i],
        ) by {
            if i < before.len() - 1 {
                assert(split_parts(text)[i] == before[i]);
            } else if text.last() == '/' {
                if i == before.len() - 1 {
                    assert(split_parts(text)[i] == before[i]);
                }
            } else {
                let last = before.last();
                assert(slash_free(before[before.len() - 1]));
                let grown = last.push(text.last());
                assert forall|k: int| 0 <= k < grown.len() implies grown[k] != '/' by {
                    if k < last.len() {
                        assert(last.contains(last[k]));
                    }
                }
            }
        }
    } else {
        assert(split_parts(text)[0] =~= Seq::<char>::empty());
    }
}

proof fn lemma_modern_part_slash_free(part: Seq<char>)
    requires
        slash_free(part),
    ensures
        slash_free(modern_part(part)),
        modern_part(part) != "ipfs"@,
{
    reveal_strlit("ipfs");
    reveal_strlit("p2p");
    assert("p2p"@ =~= seq!['p', '2', 'p']);
    assert("ipfs"@.len() == 4);
}

pub(crate) proof fn lemma_sanitized_slash_free(text: Seq<char>)
    requires
        slash_free(text),
    ensures
        sanitized(text) == modern_part(text),
        slash_free(modern_part(text)),
{
    lemma_split_slash_free(text);
    lemma_modern_part_slash_free(text);
    assert(modern_parts(text) =~= seq![modern_part(text)]);
}

/// Splitting a text at its slashes and joining the parts again gives the text back.
pub proof fn law_join_undoes_split(text: Seq<char>)
    ensures
        join_parts(split_parts(text)) == text,
    decreases text.len(),
{
    if text.len() > 0 {
        let init = text.drop_last();
        law_join_undoes_split(init);
        lemma_split_nonempty(init);
        let before = split_parts(init);
        assert(init.push(text.last()) =~= text);
        if text.last() == '/' {
            assert(split_parts(text).drop_last() =~= before);
            assert(join_parts(split_parts(text)) =~= text);
        } else {
            assert(split_parts(text).drop_last() =~= before.drop_last());
            assert(join_parts(split_parts(text)) =~= join_parts(before).push(text.last()));
        }
    }
}

/// Joining parts that hold no slash and splitting the text again gives the parts back.
pub proof fn law_split_undoes_join(parts: Seq<Seq<char>>)
    requires
        parts.len() > 0,
        forall|i: int| 0 <= i < parts.len() ==> slash_free(#[trigger] parts[i]),
    ensures
        split_parts(join_parts(parts)) == parts,
    decreases parts.len(),
{
    lemma_split_slash_free(parts.last());
    if parts.len() == 1 {
        assert(parts =~= seq![parts[0]]);
    } else {
        let init = parts.drop_last();
        assert forall|i: int| 0 <= i < init.len() implies slash_free(#[trigger] init[i]) by {
            assert(slash_free(parts[i]));
        }
        law_split_undoes_join(init);
        lemma_split_at_slash(join_parts(init), parts.last());
        assert(init + seq![parts.last()] =~= parts);
    }
}

/// Sanitizing rewrites a text part by part: the parts of the outcome are the modern spellings of
/// the parts of the text, as many and in the same order. A part that reads `ipfs` reads `p2p`
/// afterwards, and any other part reads as it did.
pub proof fn law_sanitized_parts(text: Seq<char>)
    ensures
        split_parts(sanitized(text)) == modern_parts(text),
        split_parts(sanitized(text)).len() == split_parts(text).len(),
        forall|i: int|
            0 <= i < split_parts(text).len() ==> #[trigger] split_parts(sanitized(text))[i] == if split_parts(
                text,
            )[i] == "ipfs"@ {
                "p2p"@
            } else {
                split_parts(text)[i]
            },
{
    lemma_split_nonempty(text);
    lemma_parts_slash_free(text);
    assert forall|i: int| 0 <= i < modern_parts(text).len() implies slash_free(
        #[trigger] modern_parts(text)[i],
    ) by {
        lemma_modern_part_slash_free(split_parts(text)[i]);
    }
    law_split_undoes_join(modern_parts(text));
}

/// No part of a sanitized text carries the legacy name.
pub proof fn law_sanitized_has_no_legacy_part(text: Seq<char>)
    ensures
        !split_parts(sanitized(text)).contains("ipfs"@),
{
    law_sanitized_parts(text);
    lemma_parts_slash_free(text);
    assert forall|i: int| 0 <= i < modern_parts(text).len() implies modern_parts(text)[i]
        != "ipfs"@ by {
        lemma_modern_part_slash_free(split_parts(text)[i]);
    }
}

/// A text without a legacy part is left as it is.
pub proof fn law_modern_text_unchanged(text: Seq<char>)
    requires
        !split_parts(text).contains("ipfs"@),
    ensures
        sanitized(text) == text,
{
    assert forall|i: int| 0 <= i < split_parts(text).len() implies modern_parts(text)[i]
        == split_parts(text)[i] by {
        assert(split_parts(text).contains(split_parts(text)[i]));
    }
    assert(modern_parts(text) =~= split_parts(text));
    law_join_undoes_split(text);
}

/// Sanitizing twice is sanitizing once.
pub proof fn law_sanitize_idempotent(text: Seq<char>)
    ensures
        sanitized(sanitized(text)) == sanitized(text),
{
    law_sanitized_has_no_legacy_part(text);
    law_modern_text_unchanged(sanitized(text));
}

/// What stands left and right of a slash is sanitized on its own.
pub proof fn law_sanitized_at_slash(left: Seq<char>, right: Seq<char>)
    ensures
        sanitized(left + seq!['/'] + right) == sanitized(left) + seq!['/'] + sanitized(right),
{
    lemma_split_at_slash(left, right);
    lemma_split_nonempty(left);
    lemma_split_nonempty(right);
    assert(modern_parts(left + seq!['/'] + right) =~= modern_parts(left) + modern_parts(right));
    lemma_join_append(modern_parts(left), modern_parts(right));
}

/// A text without a slash is one part: it changes just where it is the legacy name.
pub proof fn law_sanitized_without_slash(text: Seq<char>)
    requires
        !text.contains('/'),
    ensures
        sanitized(text) == if text == "ipfs"@ {
            "p2p"@
        } else {
            text
        },
{
    lemma_sanitized_slash_free(text);
}

/// A legacy name between slashes gives way to the modern one, and a modern one stays.
pub proof fn law_legacy_name_gives_way(left: Seq<char>, right: Seq<char>)
    ensures
        sanitized(left + "/ipfs/"@ + right) == sanitized(left) + "/p2p/"@ + sanitized(right),
        sanitized(left + "/p2p/"@ + right) == sanitized(left) + "/p2p/"@ + sanitized(right),
{
    reveal_strlit("/ipfs/");
    reveal_strlit("/p2p/");
    reveal_strlit("ipfs");
    reveal_strlit("p2p");
    assert("ipfs"@ =~= seq!['i', 'p', 'f', 's']);
    assert("p2p"@ =~= seq!['p', '2', 'p']);
    law_sanitized_without_slash("ipfs"@);
    law_sanitized_without_slash("p2p"@);
    assert(left + "/ipfs/"@ + right =~= left + seq!['/'] + ("ipfs"@ + seq!['/'] + right));
    assert(left + "/p2p/"@ + right =~= left + seq!['/'] + ("p2p"@ + seq!['/'] + right));
    law_sanitized_at_slash("ipfs"@, right);
    law_sanitized_at_slash("p2p"@, right);
    law_sanitized_at_slash(left, "ipfs"@ + seq!['/'] + right);
    law_sanitized_at_slash(left, "p2p"@ + seq!['/'] + right);
    assert(sanitized(left) + seq!['/'] + ("p2p"@ + seq!['/'] + sanitized(right)) =~= sanitized(left)
        + "/p2p/"@ + sanitized(right));
}

/// No part of a text holds a slash, and what stands left and right of a slash is split on its own.
pub proof fn law_parts_end_at_slashes(left: Seq<char>, right: Seq<char>, i: int)
    ensures
        0 <= i < split_parts(left).len() ==> !split_parts(left)[i].contains('/'),
        !left.contains('/') ==> split_parts(left) == seq![left],
        split_parts(left + seq!['/'] + right) == split_parts(left) + split_parts(right),
{
    lemma_parts_slash_free(left);
    if 0 <= i < split_parts(left).len() {
        assert(slash_free(split_parts(left)[i]));
    }
    if !left.contains('/') {
        lemma_split_slash_free(left);
    }
    lemma_split_at_slash(left, right);
}

}
