//! Move records and the tokenizer that turns a noisy file or directory name
//! into the words worth searching for.

use vstd::prelude::*;
use crate::decimal::is_digit;
use crate::text::{chars_eq_ignore_case, chars_of, copy_str, eq_ignore_case, string_of};

verus! {

/// One planned relocation: the file at `from` is to end up at `to`.
#[derive(Clone, Debug, PartialEq, Eq)]
pub struct Move {
    pub from: String,
    pub to: String,
}

/// A `Move` as plain text.
pub struct MoveView {
    pub from: Seq<char>,
    pub to: Seq<char>,
}

impl View for Move {
    type V = MoveView;

    open spec fn view(&self) -> MoveView {
        MoveView { from: self.from@, to: self.to@ }
    }
}

impl DeepView for Move {
    type V = MoveView;

    open spec fn deep_view(&self) -> MoveView {
        self.view()
    }
}

/// The characters on which a name is split.
pub open spec fn is_separator(c: char) -> bool {
    c == '-' || c == ' ' || c == ':' || c == '@' || c == '.'
}

/// The pieces of `s` between separators, in order. Every separator closes
/// one piece and opens the next, so a name with `n` separators has `n + 1`
/// pieces, some of which may be empty.
pub open spec fn split_on_separators(s: Seq<char>) -> Seq<Seq<char>>
    decreases s.len(),
{
    if s.len() == 0 {
        seq![Seq::<char>::empty()]
    } else {
        let before = split_on_separators(s.drop_last());
        if is_separator(s.last()) {
            before.push(Seq::<char>::empty())
        } else {
            before.drop_last().push(before.last().push(s.last()))
        }
    }
}

/// Release tags that say nothing about the title: source, resolution,
/// codec and audio markers.
pub open spec fn noise_vocabulary() -> Seq<Seq<char>> {
    seq![
        "dvd"@,
        "bluray"@,
        "webrip"@,
        "youtube"@,
        "download"@,
        "web"@,
        "uhd"@,
        "hd"@,
        "tv"@,
        "tvrip"@,
        "1080p"@,
        "1080i"@,
        "2160p"@,
        "x264"@,
        "x265"@,
        "h265"@,
        "dts"@,
        "hevc"@,
        "10bit"@,
        "12bit"@,
        "hdr"@,
        "xvid"@,
        "aac5"@,
        "aac"@,
        "ac3"@,
        "remux"@,
        "atmos"@,
        "pdtv"@,
        "td"@,
        "internal"@,
        "ma"@,
        "sample"@,
    ]
}

/// `t` is, up to ASCII case, one of the words of the noise vocabulary.
pub open spec fn is_noise_word(t: Seq<char>) -> bool {
    exists|i: int|
        0 <= i < noise_vocabulary().len() && eq_ignore_case(t, #[trigger] noise_vocabulary()[i])
}

/// `t` opens or closes a bracketed group: it starts with an opening
/// bracket, parenthesis or brace, or ends with a closing one.
pub open spec fn is_bracketed(t: Seq<char>) -> bool {
    t.len() > 0 && (t[0] == '[' || t[0] == '(' || t[0] == '{' || t.last() == ']' || t.last() == ')'
        || t.last() == '}')
}

/// `t` is a season marker: the letter `s` in either case and two digits.
pub open spec fn is_season_marker(t: Seq<char>) -> bool {
    t.len() == 3 && (t[0] == 's' || t[0] == 'S') && is_digit(t[1]) && is_digit(t[2])
}

/// `t` carries no information about the title.
pub open spec fn is_noise(t: Seq<char>) -> bool {
    is_noise_word(t) || is_bracketed(t) || is_season_marker(t)
}

/// The predicate that keeps the significant pieces of a name.
pub open spec fn significant() -> spec_fn(Seq<char>) -> bool {
    |t: Seq<char>| !is_noise(t)
}

/// The tokens of a name: its pieces between separators, without the noise,
/// in their order of appearance.
pub open spec fn tokens_of(name: Seq<char>) -> Seq<Seq<char>> {
    split_on_separators(name).filter(significant())
}

/// The tokens by which a film is searched: those of the name of its file
/// without the last, which is the extension.
pub open spec fn file_tokens(name: Seq<char>) -> Seq<Seq<char>> {
    let tokens = tokens_of(name);
    if tokens.len() == 0 {
        tokens
    } else {
        tokens.drop_last()
    }
}

/// A name always has at least one piece.
pub proof fn lemma_split_nonempty(s: Seq<char>)
    ensures
        split_on_separators(s).len() >= 1,
    decreases s.len(),
{
    if s.len() > 0 {
        lemma_split_nonempty(s.drop_last());
    }
}

/// A name has one piece more than it has separators, and no piece holds a
/// separator.
pub proof fn lemma_pieces(s: Seq<char>)
    ensures
        split_on_separators(s).len() == s.filter(|c: char| is_separator(c)).len() + 1,
        forall|i: int, j: int|
            0 <= i < split_on_separators(s).len() && 0 <= j < split_on_separators(s)[i].len()
                ==> !is_separator(#[trigger] split_on_separators(s)[i][j]),
    decreases s.len(),
{
    reveal(Seq::filter);
    if s.len() > 0 {
        lemma_pieces(s.drop_last());
        lemma_split_nonempty(s.drop_last());
    }
}

/// A name without separators is its own single piece.
pub proof fn lemma_whole_name_is_one_piece(s: Seq<char>)
    requires
        forall|i: int| 0 <= i < s.len() ==> !is_separator(#[trigger] s[i]),
    ensures
        split_on_separators(s) == seq![s],
    decreases s.len(),
{
    if s.len() > 0 {
        lemma_whole_name_is_one_piece(s.drop_last());
        assert(seq![s.drop_last()].drop_last().push(s.drop_last().push(s.last())) =~= seq![s]) by {
            assert(s.drop_last().push(s.last()) =~= s);
        }
    } else {
        assert(s =~= Seq::<char>::empty());
    }
}

/// The pieces of two names with a separator between them are the pieces
/// of the first followed by the pieces of the second.
pub proof fn lemma_split_at_separator(a: Seq<char>, c: char, b: Seq<char>)
    requires
        is_separator(c),
    ensures
        split_on_separators(a.push(c) + b) == split_on_separators(a) + split_on_separators(b),
    decreases b.len(),
{
    let whole = a.push(c) + b;
    lemma_split_nonempty(a);
    if b.len() == 0 {
        assert(whole =~= a.push(c));
        assert(whole.drop_last() =~= a);
        assert(split_on_separators(a).push(Seq::<char>::empty()) =~= split_on_separators(a)
            + split_on_separators(b));
    } else {
        lemma_split_at_separator(a, c, b.drop_last());
        lemma_split_nonempty(b.drop_last());
        assert(whole.drop_last() =~= a.push(c) + b.drop_last());
        assert(whole.last() == b.last());
        let left = split_on_separators(a);
        let right = split_on_separators(b.drop_last());
        if is_separator(b.last()) {
            assert((left + right).push(Seq::<char>::empty()) =~= left + right.push(
                Seq::<char>::empty(),
            ));
        } else {
            assert((left + right).drop_last().push((left + right).last().push(b.last()))
                =~= left + right.drop_last().push(right.last().push(b.last())));
        }
    }
}

/// A name whose pieces are all noise has no tokens.
pub proof fn lemma_noise_only_has_no_tokens(name: Seq<char>)
    requires
        forall|i: int|
            0 <= i < split_on_separators(name).len() ==> is_noise(
                #[trigger] split_on_separators(name)[i],
            ),
    ensures
        tokens_of(name) == Seq::<Seq<char>>::empty(),
{
    let pieces = split_on_separators(name);
    let kept = pieces.filter(significant());
    if kept.len() > 0 {
        pieces.lemma_filter_pred(significant(), 0);
        assert(kept.contains(kept[0]));
        pieces.lemma_filter_contains_rev(significant(), kept[0]);
        let j = choose|j: int| 0 <= j < pieces.len() && pieces[j] == kept[0];
        assert(is_noise(pieces[j]));
    }
    assert(kept =~= Seq::<Seq<char>>::empty());
}

/// A file name that is noise up to its extension gives no tokens to
/// search for: if every piece but the last is noise, nothing is left once
/// the last token is dropped.
pub proof fn lemma_noise_before_extension_has_no_tokens(name: Seq<char>)
    requires
        forall|i: int|
            0 <= i < split_on_separators(name).len() - 1 ==> is_noise(
                #[trigger] split_on_separators(name)[i],
            ),
    ensures
        file_tokens(name) == Seq::<Seq<char>>::empty(),
{
    let pieces = split_on_separators(name);
    lemma_split_nonempty(name);
    let init = pieces.drop_last();
    assert(pieces =~= init.push(pieces.last()));
    init.lemma_filter_push(pieces.last(), significant());
    let kept = init.filter(significant());
    if kept.len() > 0 {
        init.lemma_filter_pred(significant(), 0);
        assert(kept.contains(kept[0]));
        init.lemma_filter_contains_rev(significant(), kept[0]);
        let j = choose|j: int| 0 <= j < init.len() && init[j] == kept[0];
        assert(init[j] == pieces[j]);
        assert(is_noise(pieces[j]));
    }
    assert(kept =~= Seq::<Seq<char>>::empty());
    assert(file_tokens(name) =~= Seq::<Seq<char>>::empty());
}

/// The noise vocabulary as a table of words.
fn noise_words() -> (words: Vec<&'static str>)
    ensures
        words.len() == noise_vocabulary().len(),
        forall|i: int| 0 <= i < words.len() ==> (#[trigger] words[i])@ == noise_vocabulary()[i],
{
    let words = vec![
        "dvd", "bluray", "webrip", "youtube", "download", "web", "uhd", "hd", "tv", "tvrip",
        "1080p", "1080i", "2160p", "x264", "x265", "h265", "dts", "hevc", "10bit", "12bit",
        "hdr", "xvid", "aac5", "aac", "ac3", "remux", "atmos", "pdtv", "td", "internal", "ma",
        "sample",
    ];
    words
}

fn chars_are_noise_word(t: &Vec<char>) -> (r: bool)
    ensures
        r == is_noise_word(t@),
{
    let words = noise_words();
    let mut i: usize = 0;
    while i < words.len()
        invariant
            i <= words.len(),
            words.len() == noise_vocabulary().len(),
            forall|k: int| 0 <= k < words.len() ==> (#[trigger] words[k])@ == noise_vocabulary()[k],
            forall|k: int| 0 <= k < i ==> !eq_ignore_case(t@, #[trigger] noise_vocabulary()[k]),
        decreases words.len() - i,
    {
        let word = chars_of(words[i]);
        if chars_eq_ignore_case(t, &word) {
            assert(eq_ignore_case(t@, noise_vocabulary()[i as int]));
            return true;
        }
        i = i + 1;
    }
    false
}

fn chars_are_bracketed(t: &Vec<char>) -> (r: bool)
    ensures
        r == is_bracketed(t@),
{
    if t.len() == 0 {
        return false;
    }
    let first = t[0];
    let last = t[t.len() - 1];
    first == '[' || first == '(' || first == '{' || last == ']' || last == ')' || last == '}'
}

fn char_is_digit(c: char) -> (r: bool)
    ensures
        r == is_digit(c),
{
    '0' <= c && c <= '9'
}

fn chars_are_season_marker(t: &Vec<char>) -> (r: bool)
    ensures
        r == is_season_marker(t@),
{
    t.len() == 3 && (t[0] == 's' || t[0] == 'S') && char_is_digit(t[1])
        && char_is_digit(t[2])
}

fn chars_are_noise(t: &Vec<char>) -> (r: bool)
    ensures
        r == is_noise(t@),
{
    chars_are_noise_word(t) || chars_are_bracketed(t) || chars_are_season_marker(t)
}

/// Whether a piece of a name is worth keeping as a token.
pub fn token_valid(t: &str) -> (valid: bool)
    ensures
        valid == !is_noise(t@),
{
    let chars = chars_of(t);
    !chars_are_noise(&chars)
}

fn char_is_separator(c: char) -> (r: bool)
    ensures
        r == is_separator(c),
{
    c == '-' || c == ' ' || c == ':' || c == '@' || c == '.'
}

/// Splits a file or directory name on separators and drops the noise.
/// The tokens keep their order; a name made of noise alone gives none.
pub fn tokenize_media_name(file_name: String) -> (tokens: Vec<String>)
    ensures
        tokens.deep_view() == tokens_of(file_name@),
{
    let chars = chars_of(file_name.as_str());
    let mut tokens: Vec<String> = Vec::new();
    let mut current: Vec<char> = Vec::new();
    let mut i: usize = 0;
    proof {
        assert(chars@.take(0) =~= Seq::<char>::empty());
        assert(split_on_separators(chars@.take(0)).drop_last() =~= Seq::<Seq<char>>::empty());
        reveal(Seq::filter);
        assert(tokens.deep_view() =~= Seq::<Seq<char>>::empty());
    }
    while i < chars.len()
        invariant
            i <= chars.len(),
            chars@ == file_name@,
            current@ == split_on_separators(chars@.take(i as int)).last(),
            tokens.deep_view() == split_on_separators(chars@.take(i as int)).drop_last().filter(
                significant(),
            ),
        decreases chars.len() - i,
    {
        let c = chars[i];
        let ghost before = split_on_separators(chars@.take(i as int));
        proof {
            lemma_split_nonempty(chars@.take(i as int));
            assert(chars@.take(i + 1).drop_last() =~= chars@.take(i as int));
            assert(chars@.take(i + 1).last() == c);
            assert(before =~= before.drop_last().push(before.last()));
        }
        if char_is_separator(c) {
            let ghost kept = tokens.deep_view();
            if !chars_are_noise(&current) {
                let token = string_of(&current);
                tokens.push(token);
                assert(tokens.deep_view() =~= kept.push(current@));
            }
            proof {
                before.drop_last().lemma_filter_push(before.last(), significant());
                assert(split_on_separators(chars@.take(i + 1)).drop_last() =~= before);
            }
            current = Vec::new();
        } else {
            current.push(c);
            proof {
                assert(split_on_separators(chars@.take(i + 1)).drop_last() =~= before.drop_last());
            }
        }
        i = i + 1;
    }
    let ghost pieces = split_on_separators(file_name@);
    let ghost kept = tokens.deep_view();
    proof {
        assert(chars@.take(chars.len() as int) =~= file_name@);
        lemma_split_nonempty(file_name@);
        assert(pieces =~= pieces.drop_last().push(pieces.last()));
        pieces.drop_last().lemma_filter_push(pieces.last(), significant());
    }
    if !chars_are_noise(&current) {
        let token = string_of(&current);
        tokens.push(token);
        assert(tokens.deep_view() =~= kept.push(current@));
    }
    tokens
}

/// The tokens by which a film is searched: those of the name of its file
/// without the last, which is the extension.
pub fn tokenize_file_name(name: &str) -> (tokens: Vec<String>)
    ensures
        tokens.deep_view() == file_tokens(name@),
{
    let mut tokens = tokenize_media_name(copy_str(name));
    if tokens.len() > 0 {
        let ghost all = tokens.deep_view();
        tokens.pop();
        assert(tokens.deep_view() =~= all.drop_last());
    }
    tokens
}

} // verus!
