//! Names for tunnels that were given none.

use vstd::prelude::*;
use vstd::string::*;

use crate::external::{char_lowercase, is_alphanumeric, lowercase_of, random_alphanumeric,
    string_from_chars};
use crate::protocol::tunnel_id::{is_tunnel_id, is_tunnel_id_char, InvalidTunnelId, TunnelId,
    MAX_TUNNEL_ID_LENGTH};
use crate::text::{chars_of, drop_trailing, lower, to_lower, without_trailing};

verus! {

/// The length of a name that is made up.
pub const FALLBACK_NAME_LENGTH: usize = 8;

pub open spec fn is_name_char(c: char) -> bool {
    ('a' <= c <= 'z') || ('0' <= c <= '9')
}

/// A text with every character in lowercase.
pub open spec fn lowercase(text: Seq<char>) -> Seq<char>
    decreases text.len(),
{
    if text.len() == 0 {
        seq![]
    } else {
        lowercase(text.drop_last()) + lowercase_of(text.last())
    }
}

/// Whether every character of a text is an ASCII character.
pub open spec fn is_ascii_text(text: Seq<char>) -> bool {
    forall|i: int| 0 <= i < text.len() ==> #[trigger] text[i] <= '\x7f'
}

/// A text with each run of other characters than letters and digits made one hyphen, without
/// one at the start.
pub open spec fn hyphenated(text: Seq<char>) -> Seq<char>
    decreases text.len(),
{
    if text.len() == 0 {
        seq![]
    } else {
        let before = hyphenated(text.drop_last());
        if is_name_char(text.last()) {
            before.push(text.last())
        } else if before.len() > 0 && before.last() != '-' {
            before.push('-')
        } else {
            before
        }
    }
}

/// The name made of a text that is in lowercase already.
pub open spec fn name_of(text: Seq<char>) -> Seq<char> {
    let name = hyphenated(text);
    without_trailing(
        if name.len() > MAX_TUNNEL_ID_LENGTH {
            name.take(MAX_TUNNEL_ID_LENGTH as int)
        } else {
            name
        },
        '-',
    )
}

proof fn lemma_hyphenated(text: Seq<char>)
    ensures
        forall|i: int|
            0 <= i < hyphenated(text).len() ==> is_tunnel_id_char(#[trigger] hyphenated(text)[i]),
        hyphenated(text).len() > 0 ==> hyphenated(text)[0] != '-',
    decreases text.len(),
{
    if text.len() > 0 {
        lemma_hyphenated(text.drop_last());
    }
}

proof fn lemma_without_trailing(s: Seq<char>, c: char)
    ensures
        without_trailing(s, c).len() <= s.len(),
        without_trailing(s, c) == s.take(without_trailing(s, c).len() as int),
        without_trailing(s, c).len() > 0 ==> without_trailing(s, c).last() != c,
    decreases s.len(),
{
    if s.len() > 0 && s.last() == c {
        lemma_without_trailing(s.drop_last(), c);
        let n = without_trailing(s, c).len() as int;
        assert(s.drop_last().take(n) =~= s.take(n));
    } else {
        assert(s.take(s.len() as int) =~= s);
    }
}

/// What is left of a text is a tunnel name, if anything is left.
pub proof fn law_name_is_empty_or_a_tunnel_id(text: Seq<char>)
    ensures
        name_of(text).len() == 0 || is_tunnel_id(name_of(text)),
{
    let name = hyphenated(text);
    let short = if name.len() > MAX_TUNNEL_ID_LENGTH {
        name.take(MAX_TUNNEL_ID_LENGTH as int)
    } else {
        name
    };
    lemma_hyphenated(text);
    lemma_without_trailing(short, '-');
    let result = name_of(text);
    assert(forall|i: int| 0 <= i < result.len() ==> #[trigger] result[i] == name[i]);
}

proof fn lemma_kept(name: Seq<char>)
    requires
        forall|i: int| 0 <= i < name.len() ==> is_tunnel_id_char(#[trigger] name[i]),
        name.len() > 0 ==> name[0] != '-',
        single_hyphens(name),
    ensures
        hyphenated(name) == name,
    decreases name.len(),
{
    if name.len() > 0 {
        let before = name.drop_last();
        assert forall|i: int| 0 < i < before.len() && before[i] == '-' implies #[trigger] before[i
            - 1] != '-' by {
            assert(name[i - 1] != '-');
        }
        lemma_kept(before);
        assert(before.push(name.last()) =~= name);
        if name.last() == '-' {
            let i = name.len() - 1;
            assert(name[i - 1] != '-');
        }
    } else {
        assert(hyphenated(name) =~= name);
    }
}

/// Whether a name has no two hyphens in a row.
pub open spec fn single_hyphens(name: Seq<char>) -> bool {
    forall|i: int| 0 < i < name.len() && name[i] == '-' ==> #[trigger] name[i - 1] != '-'
}

/// A tunnel name without two hyphens in a row is kept as it is.
pub proof fn law_tunnel_id_is_kept(name: Seq<char>)
    requires
        is_tunnel_id(name),
        single_hyphens(name),
    ensures
        name_of(name) == name,
{
    lemma_kept(name);
}

/// The name made of a text, which is empty where nothing can be made of it. A tunnel name without
/// two hyphens in a row is kept as it is, and ASCII letters come out in their ASCII lowercase.
pub fn sanitize_tunnel_id(value: &str) -> (result: String)
    ensures
        result@ == name_of(lowercase(value@)),
        result@.len() == 0 || is_tunnel_id(result@),
        is_tunnel_id(value@) && single_hyphens(value@) ==> result@ == value@,
        is_ascii_text(value@) ==> lowercase(value@) == lower(value@),
{
    let text = chars_of(value);
    let mut name: Vec<char> = Vec::new();
    let ghost mut seen: Seq<char> = seq![];
    let mut i: usize = 0;
    proof {
        assert(text@.take(0) =~= seq![]);
    }
    while i < text.len()
        invariant
            i <= text@.len(),
            seen == lowercase(text@.take(i as int)),
            name@ == hyphenated(seen),
            text@ == value@,
            is_tunnel_id(value@) ==> seen == value@.take(i as int),
            is_ascii_text(value@) ==> seen == lower(value@.take(i as int)),
        decreases text@.len() - i,
    {
        let lowered = char_lowercase(text[i]);
        let ghost before = seen;
        let mut k: usize = 0;
        proof {
            assert(before + lowered@.take(0) =~= before);
        }
        while k < lowered.len()
            invariant
                k <= lowered@.len(),
                seen == before + lowered@.take(k as int),
                name@ == hyphenated(seen),
            decreases lowered@.len() - k,
        {
            let character = lowered[k];
            proof {
                let next = before + lowered@.take(k + 1);
                assert(next.drop_last() =~= seen);
                assert(next.last() == character);
                seen = next;
            }
            if ('a' <= character && character <= 'z') || ('0' <= character && character <= '9') {
                name.push(character);
            } else if name.len() > 0 && name[name.len() - 1] != '-' {
                name.push('-');
            }
            k += 1;
        }
        proof {
            assert(lowered@.take(k as int) =~= lowered@);
            assert(text@.take(i + 1).drop_last() =~= text@.take(i as int));
            if is_tunnel_id(value@) {
                assert(is_tunnel_id_char(value@[i as int]));
                assert(before + lowered@ =~= value@.take(i + 1));
            }
            if is_ascii_text(value@) {
                assert(value@[i as int] <= '\x7f');
                assert(before + lowered@ =~= lower(value@.take(i + 1)));
            }
        }
        i += 1;
    }
    assert(text@.take(i as int) =~= value@);
    if name.len() > MAX_TUNNEL_ID_LENGTH {
        name.truncate(MAX_TUNNEL_ID_LENGTH);
    }
    proof {
        law_name_is_empty_or_a_tunnel_id(lowercase(value@));
        if is_tunnel_id(value@) && single_hyphens(value@) {
            law_tunnel_id_is_kept(value@);
        }
    }
    string_from_chars(&drop_trailing(&name, '-'))
}

/// The name of a tunnel that was given none: made of the directory's name where that is possible,
/// and the fallback in lowercase otherwise.
pub fn tunnel_id_from(directory: Option<&str>, fallback: &str) -> (result: Result<
    TunnelId,
    InvalidTunnelId,
>)
    ensures
        ({
            let made = match directory {
                Some(name) => name_of(lowercase(name@)),
                None => seq![],
            };
            let name = if made.len() > 0 {
                made
            } else {
                lower(fallback@)
            };
            &&& result is Ok <==> is_tunnel_id(name)
            &&& result matches Ok(id) ==> id@ == name
        }),
{
    if let Some(directory) = directory {
        let name = sanitize_tunnel_id(directory);
        if !chars_of(&name).is_empty() {
            return TunnelId::new(&name);
        }
    }
    TunnelId::new(&string_from_chars(&to_lower(&chars_of(fallback))))
}

/// The name of a tunnel that was given none. It comes from the directory's name where that is
/// possible, and is made up at random otherwise. There always is one.
pub fn default_tunnel_id(directory: Option<&str>) -> (result: Result<TunnelId, InvalidTunnelId>)
    ensures
        result is Ok,
        result matches Ok(id) ==> match directory {
            Some(name) if name_of(lowercase(name@)).len() > 0 => id@ == name_of(lowercase(name@)),
            _ => {
                &&& id@.len() == FALLBACK_NAME_LENGTH
                &&& forall|i: int| 0 <= i < id@.len() ==> is_name_char(#[trigger] id@[i])
            },
        },
{
    let fallback = random_alphanumeric(FALLBACK_NAME_LENGTH);
    proof {
        if let Some(name) = directory {
            law_name_is_empty_or_a_tunnel_id(lowercase(name@));
        }
        assert forall|i: int| 0 <= i < fallback@.len() implies is_name_char(
            #[trigger] lower(fallback@)[i],
        ) by {
            assert(is_alphanumeric(fallback@[i]));
        }
        assert(is_tunnel_id(lower(fallback@)));
    }
    tunnel_id_from(directory, &fallback)
}

/// The name of a tunnel: the one that was asked for, in lowercase, or one made for it.
pub fn choose_tunnel_id(name: Option<&str>, directory: Option<&str>) -> (result: Result<
    TunnelId,
    InvalidTunnelId,
>)
    ensures
        match name {
            Some(name) => {
                &&& result is Ok <==> is_tunnel_id(lower(name@))
                &&& result matches Ok(id) ==> id@ == lower(name@)
            },
            None => result is Ok,
        },
        result matches Ok(id) ==> name is None ==> match directory {
            Some(name) if name_of(lowercase(name@)).len() > 0 => id@ == name_of(lowercase(name@)),
            _ => {
                &&& id@.len() == FALLBACK_NAME_LENGTH
                &&& forall|i: int| 0 <= i < id@.len() ==> is_name_char(#[trigger] id@[i])
            },
        },
{
    match name {
        Some(name) => TunnelId::new(&string_from_chars(&to_lower(&chars_of(name)))),
        None => default_tunnel_id(directory),
    }
}

/// Whether a text is made of lowercase letters and digits, and is not empty.
pub open spec fn is_word(text: Seq<char>) -> bool {
    text.len() > 0 && forall|i: int|
        0 <= i < text.len() ==> ('a' <= #[trigger] text[i] <= 'z') || ('0' <= text[i] <= '9')
}

/// Whether a text has neither lowercase letters nor digits.
pub open spec fn is_gap(text: Seq<char>) -> bool {
    forall|i: int|
        0 <= i < text.len() ==> !('a' <= #[trigger] text[i] <= 'z') && !('0' <= text[i] <= '9')
}

/// Words with gaps between them.
pub open spec fn spread(words: Seq<Seq<char>>, gaps: Seq<Seq<char>>) -> Seq<char>
    decreases words.len(),
{
    if words.len() <= 1 {
        words[0]
    } else {
        spread(words.drop_last(), gaps.drop_last()) + gaps.last() + words.last()
    }
}

/// Words with one hyphen between two of them.
pub open spec fn hyphen_joined(words: Seq<Seq<char>>) -> Seq<char>
    decreases words.len(),
{
    if words.len() <= 1 {
        words[0]
    } else {
        hyphen_joined(words.drop_last()) + seq!['-'] + words.last()
    }
}

/// A text of at most sixty-three characters as it is, and the start of a longer one, without a
/// hyphen at its end.
pub open spec fn shortened(text: Seq<char>) -> Seq<char> {
    if text.len() <= 63 {
        text
    } else if text[62] == '-' {
        text.take(62)
    } else {
        text.take(63)
    }
}

proof fn lemma_word_is_kept(text: Seq<char>, word: Seq<char>)
    requires
        is_word(word) || word.len() == 0,
    ensures
        hyphenated(text + word) == hyphenated(text) + word,
    decreases word.len(),
{
    if word.len() == 0 {
        assert(text + word =~= text);
        assert(hyphenated(text) + word =~= hyphenated(text));
    } else {
        let front = word.drop_last();
        assert((text + word).drop_last() =~= text + front);
        assert((text + word).last() == word.last());
        assert(word.last() == word[word.len() - 1]);
        lemma_word_is_kept(text, front);
        assert(hyphenated(text) + word =~= (hyphenated(text) + front).push(word.last()));
    }
}

proof fn lemma_gap_is_a_hyphen(text: Seq<char>, gap: Seq<char>)
    requires
        is_gap(gap),
        gap.len() > 0,
    ensures
        hyphenated(text + gap) == if hyphenated(text).len() > 0 && hyphenated(text).last() != '-' {
            hyphenated(text).push('-')
        } else {
            hyphenated(text)
        },
    decreases gap.len(),
{
    let front = gap.drop_last();
    assert((text + gap).drop_last() =~= text + front);
    assert((text + gap).last() == gap[gap.len() - 1]);
    if front.len() == 0 {
        assert(text + front =~= text);
    } else {
        lemma_gap_is_a_hyphen(text, front);
    }
}

proof fn lemma_spread(lead: Seq<char>, words: Seq<Seq<char>>, gaps: Seq<Seq<char>>)
    requires
        is_gap(lead),
        words.len() > 0,
        gaps.len() == words.len() - 1,
        forall|i: int| 0 <= i < words.len() ==> is_word(#[trigger] words[i]),
        forall|i: int| 0 <= i < gaps.len() ==> is_gap(#[trigger] gaps[i]) && gaps[i].len() > 0,
    ensures
        hyphenated(lead + spread(words, gaps)) == hyphen_joined(words),
        hyphen_joined(words).len() > 0,
        hyphen_joined(words).last() != '-',
    decreases words.len(),
{
    let empty = Seq::<char>::empty();
    assert(is_word(words[0]));
    assert(is_word(words[words.len() - 1]));
    let last = words.last();
    assert(last.last() == last[last.len() - 1]);
    if words.len() == 1 {
        if lead.len() == 0 {
            assert(hyphenated(lead) =~= empty);
        } else {
            assert(empty + lead =~= lead);
            assert(hyphenated(empty) =~= empty);
            lemma_gap_is_a_hyphen(empty, lead);
        }
        lemma_word_is_kept(lead, words[0]);
        assert(empty + words[0] =~= words[0]);
    } else {
        let w = words.drop_last();
        let g = gaps.drop_last();
        assert forall|i: int| 0 <= i < w.len() implies is_word(#[trigger] w[i]) by {
            assert(w[i] == words[i]);
        }
        assert forall|i: int| 0 <= i < g.len() implies is_gap(#[trigger] g[i]) && g[i].len() > 0 by {
            assert(g[i] == gaps[i]);
        }
        lemma_spread(lead, w, g);
        let head = lead + spread(w, g);
        assert(is_gap(gaps[gaps.len() - 1]));
        lemma_gap_is_a_hyphen(head, gaps.last());
        lemma_word_is_kept(head + gaps.last(), last);
        assert(lead + spread(words, gaps) =~= head + gaps.last() + last);
        assert(hyphen_joined(w).push('-') + last =~= hyphen_joined(words));
    }
}

/// A name is made of the words of a text, where a word is a run of lowercase letters and digits:
/// the words in order, with exactly one hyphen between two of them whatever stood there, and none
/// before the first or after the last. A text without words makes no name. Where that is longer
/// than a tunnel name can be, the name is its start, and as long as it can be.
pub proof fn law_name_is_the_words_with_hyphens(
    lead: Seq<char>,
    words: Seq<Seq<char>>,
    gaps: Seq<Seq<char>>,
    trail: Seq<char>,
)
    requires
        is_gap(lead),
        is_gap(trail),
        words.len() > 0,
        gaps.len() == words.len() - 1,
        forall|i: int| 0 <= i < words.len() ==> is_word(#[trigger] words[i]),
        forall|i: int| 0 <= i < gaps.len() ==> is_gap(#[trigger] gaps[i]) && gaps[i].len() > 0,
    ensures
        name_of(lead).len() == 0,
        ({
            let name = name_of(lead + spread(words, gaps) + trail);
            name == shortened(hyphen_joined(words))
        }),
{
    let empty = Seq::<char>::empty();
    assert(hyphenated(empty) =~= empty);
    assert(empty + lead =~= lead);
    if lead.len() > 0 {
        lemma_gap_is_a_hyphen(empty, lead);
    }
    lemma_spread(lead, words, gaps);
    let joined = hyphen_joined(words);
    let body = lead + spread(words, gaps);
    let whole = hyphenated(body + trail);
    if trail.len() > 0 {
        lemma_gap_is_a_hyphen(body, trail);
    } else {
        assert(body + trail =~= body);
    }
    if joined.len() <= 63 {
        if whole.len() > 63 {
            assert(whole.take(63) =~= joined);
        } else if trail.len() > 0 {
            assert(whole.drop_last() =~= joined);
            reveal_with_fuel(without_trailing, 2);
        }
    } else {
        lemma_joined_has_single_hyphens(words);
        let cut = whole.take(63);
        assert(cut =~= joined.take(63));
        if joined[62] == '-' {
            assert(joined[61] != '-');
            assert(cut.drop_last() =~= joined.take(62));
            assert(joined.take(62).last() == joined[61]);
            reveal_with_fuel(without_trailing, 2);
        } else {
            assert(cut.last() == joined[62]);
        }
    }
}

proof fn lemma_joined_has_single_hyphens(words: Seq<Seq<char>>)
    requires
        words.len() > 0,
        forall|i: int| 0 <= i < words.len() ==> is_word(#[trigger] words[i]),
    ensures
        hyphen_joined(words).len() > 0,
        hyphen_joined(words).last() != '-',
        forall|i: int|
            #![trigger hyphen_joined(words)[i]]
            0 < i < hyphen_joined(words).len() && hyphen_joined(words)[i] == '-'
                ==> hyphen_joined(words)[i - 1] != '-',
    decreases words.len(),
{
    let last = words[words.len() - 1];
    assert(is_word(last));
    assert(last.last() == last[last.len() - 1]);
    assert forall|i: int| 0 <= i < last.len() implies #[trigger] last[i] != '-' by {}
    if words.len() > 1 {
        let w = words.drop_last();
        assert forall|i: int| 0 <= i < w.len() implies is_word(#[trigger] w[i]) by {
            assert(w[i] == words[i]);
        }
        lemma_joined_has_single_hyphens(w);
        let head = hyphen_joined(w);
        let joined = hyphen_joined(words);
        assert forall|i: int|
            #![trigger joined[i]]
            0 < i < joined.len() && joined[i] == '-' implies joined[i - 1] != '-' by {
            if i < head.len() {
                assert(joined[i] == head[i]);
                assert(joined[i - 1] == head[i - 1]);
            } else if i == head.len() {
                assert(joined[i - 1] == head.last());
            } else {
                assert(joined[i] == last[i - head.len() - 1]);
            }
        }
    }
}

/// What the words of a directory's name make, in lowercase, is the name of its tunnel.
pub proof fn law_directory_makes_the_name(
    value: &str,
    lead: Seq<char>,
    words: Seq<Seq<char>>,
    gaps: Seq<Seq<char>>,
    trail: Seq<char>,
    fallback: &str,
    made: String,
    id: Result<TunnelId, InvalidTunnelId>,
    default: Result<TunnelId, InvalidTunnelId>,
)
    requires
        is_gap(lead),
        is_gap(trail),
        words.len() > 0,
        gaps.len() == words.len() - 1,
        forall|i: int| 0 <= i < words.len() ==> is_word(#[trigger] words[i]),
        forall|i: int| 0 <= i < gaps.len() ==> is_gap(#[trigger] gaps[i]) && gaps[i].len() > 0,
        lowercase(value@) == lead + spread(words, gaps) + trail || ((forall|i: int|
            0 <= i < value@.len() ==> #[trigger] value@[i] <= '\x7f') && lower(value@) == lead
            + spread(words, gaps) + trail),
        call_ensures(sanitize_tunnel_id, (value,), made),
        call_ensures(tunnel_id_from, (Some(value), fallback), id),
        call_ensures(default_tunnel_id, (Some(value),), default),
    ensures
        made@ == shortened(hyphen_joined(words)),
        id matches Ok(id) && id@ == shortened(hyphen_joined(words)),
        default matches Ok(id) && id@ == shortened(hyphen_joined(words)),
{
    law_name_is_the_words_with_hyphens(lead, words, gaps, trail);
    lemma_joined_has_single_hyphens(words);
    law_name_is_empty_or_a_tunnel_id(lowercase(value@));
}

/// Without a directory to take a name from, the name is made up of eight lowercase letters and
/// digits.
pub proof fn law_made_up_name(
    directory: Option<&str>,
    made: Result<TunnelId, InvalidTunnelId>,
    chosen: Result<TunnelId, InvalidTunnelId>,
)
    requires
        directory matches Some(directory) ==> is_gap(lowercase(directory@)),
        call_ensures(default_tunnel_id, (directory,), made),
        call_ensures(choose_tunnel_id, (None, directory), chosen),
    ensures
        made matches Ok(id) && id@.len() == 8 && is_word(id@),
        chosen matches Ok(id) && id@.len() == 8 && is_word(id@),
{
    let empty = Seq::<char>::empty();
    assert(hyphenated(empty) =~= empty);
    if let Some(directory) = directory {
        let text = lowercase(directory@);
        assert(empty + text =~= text);
        if text.len() > 0 {
            lemma_gap_is_a_hyphen(empty, text);
        }
    }
}

/// A directory's name without letters and digits makes no name: the fallback is taken. A name
/// that was asked for is taken in lowercase, whatever the directory is called, and one that is no
/// tunnel name even so is refused.
pub proof fn law_name_asked_for_is_taken(
    asked: &str,
    directory: Option<&str>,
    fallback: &str,
    id: Result<TunnelId, InvalidTunnelId>,
    chosen: Result<TunnelId, InvalidTunnelId>,
)
    requires
        directory matches Some(directory) ==> is_gap(lowercase(directory@)),
        call_ensures(tunnel_id_from, (directory, fallback), id),
        call_ensures(choose_tunnel_id, (Some(asked), directory), chosen),
    ensures
        id is Ok <==> is_tunnel_id(lower(fallback@)),
        id matches Ok(id) ==> id@ == lower(fallback@),
        chosen is Ok <==> is_tunnel_id(lower(asked@)),
        chosen matches Ok(id) ==> id@ == lower(asked@),
{
    let empty = Seq::<char>::empty();
    assert(hyphenated(empty) =~= empty);
    if let Some(directory) = directory {
        let text = lowercase(directory@);
        assert(empty + text =~= text);
        if text.len() > 0 {
            lemma_gap_is_a_hyphen(empty, text);
        }
    }
}

/// Lowercase goes character by character.
pub proof fn law_lowercase_goes_by_character(a: Seq<char>, b: Seq<char>, c: char)
    ensures
        lowercase(a + b) == lowercase(a) + lowercase(b),
        lowercase(seq![c]) == lowercase_of(c),
        lowercase(Seq::<char>::empty()) == Seq::<char>::empty(),
    decreases b.len(),
{
    let empty = Seq::<char>::empty();
    assert(seq![c].drop_last() =~= empty);
    assert(lowercase(empty) =~= empty);
    assert(empty + lowercase_of(c) =~= lowercase_of(c));
    if b.len() == 0 {
        assert(a + b =~= a);
        assert(lowercase(a) + lowercase(b) =~= lowercase(a));
    } else {
        assert((a + b).drop_last() =~= a + b.drop_last());
        assert((a + b).last() == b.last());
        law_lowercase_goes_by_character(a, b.drop_last(), c);
        assert(lowercase(a) + lowercase(b) =~= (lowercase(a) + lowercase(b.drop_last()))
            + lowercase_of(b.last()));
    }
}

} // verus!
