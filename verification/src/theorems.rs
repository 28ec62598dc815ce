//! Theorems about the scan model: what holds of every source text.

use vstd::prelude::*;
use crate::model::{
    comment_at, eof_token, errors_among, errors_from, find_char, is_blank, lemma_find_char,
    lemma_lexeme_end_bounds, lexeme_at, lexeme_end, lexeme_starts, lexeme_starts_from, lexemes,
    lexemes_from, line_at, newlines_before, operator_pair_at, paired_kind, plain_token,
    scan_result, scanned_errors, scanned_tokens, single_kind, tokens_among, tokens_from, Lexeme,
};
use crate::scanner::ErrorView;
use crate::token_type::{TokenType, TokenView};

verus! {

/// Two-character operators are maximal: where `!`, `=`, `<` or `>` begins a
/// lexeme and `=` follows it, the lexeme is the one two-character operator,
/// and the `=` begins no lexeme of its own.
pub proof fn lemma_operators_are_maximal(src: Seq<char>, pos: int)
    requires
        0 <= pos,
        pos + 1 < src.len(),
        src[pos] == '!' || src[pos] == '=' || src[pos] == '<' || src[pos] == '>',
        src[pos + 1] == '=',
    ensures
        lexeme_end(src, pos) == pos + 2,
        lexeme_at(src, pos) == Lexeme::Token(
            plain_token(paired_kind(src[pos])->0, src, pos, pos + 2),
        ),
        tokens_from(src, pos) == seq![plain_token(paired_kind(src[pos])->0, src, pos, pos + 2)]
            + tokens_from(src, pos + 2),
        errors_from(src, pos) == errors_from(src, pos + 2),
{
}

/// A string literal that no quote closes yields one error, on the line on
/// which the text ends, and no token; it consumes the rest of the text.
pub proof fn lemma_unterminated_string(src: Seq<char>, pos: int)
    requires
        0 <= pos < src.len(),
        src[pos] == '"',
        forall|k: int| pos < k < src.len() ==> src[k] != '"',
    ensures
        lexeme_end(src, pos) == src.len(),
        lexeme_at(src, pos) == Lexeme::Error(
            ErrorView::UnexpectedEOF(line_at(src, src.len() as int)),
        ),
        tokens_from(src, pos) == seq![eof_token(src)],
        errors_from(src, pos) == seq![ErrorView::UnexpectedEOF(line_at(src, src.len() as int))],
{
    lemma_find_char(src, pos + 1, '"');
    assert(tokens_from(src, src.len() as int) == seq![eof_token(src)]);
    assert(errors_from(src, src.len() as int) == Seq::<ErrorView>::empty());
    assert(errors_from(src, pos) =~= seq![
        ErrorView::UnexpectedEOF(line_at(src, src.len() as int)),
    ]);
}

/// Whether no lexical rule accepts `c` at the beginning of a lexeme.
pub open spec fn is_unrecognized(c: char) -> bool {
    single_kind(c) is None && !is_blank(c) && c != '"'
}

/// An unrecognized character at the beginning of a lexeme is a lexeme of
/// its own, and yields one error that names it and its line.
pub proof fn lemma_unrecognized_character(src: Seq<char>, pos: int)
    requires
        0 <= pos < src.len(),
        is_unrecognized(src[pos]),
    ensures
        lexeme_end(src, pos) == pos + 1,
        lexeme_at(src, pos) == Lexeme::Error(
            ErrorView::UnexpectedChar(src[pos], line_at(src, pos)),
        ),
        tokens_from(src, pos) == tokens_from(src, pos + 1),
        errors_from(src, pos) == seq![ErrorView::UnexpectedChar(src[pos], line_at(src, pos))]
            + errors_from(src, pos + 1),
{
}

/// A text of unrecognized characters alone yields one error for each of
/// them, in order and all on the first line, and nothing else.
pub proof fn lemma_unrecognized_text(src: Seq<char>)
    requires
        src.len() > 0,
        forall|i: int| 0 <= i < src.len() ==> is_unrecognized(#[trigger] src[i]),
    ensures
        scan_result(src) is Err,
        scan_result(src)->Err_0.len() == src.len(),
        forall|i: int|
            0 <= i < src.len() ==> #[trigger] scan_result(src)->Err_0[i]
                == ErrorView::UnexpectedChar(src[i], 1),
{
    lemma_unrecognized_from(src, 0);
    assert forall|i: int| 0 <= i < src.len() implies #[trigger] scanned_errors(src)[i]
        == ErrorView::UnexpectedChar(src[i], 1) by {
        assert(errors_from(src, 0)[i] == ErrorView::UnexpectedChar(src[0 + i], 1));
    }
}

proof fn lemma_unrecognized_from(src: Seq<char>, pos: int)
    requires
        0 <= pos <= src.len(),
        forall|i: int| 0 <= i < src.len() ==> is_unrecognized(#[trigger] src[i]),
    ensures
        line_at(src, pos) == 1,
        errors_from(src, pos).len() == src.len() - pos,
        forall|i: int|
            0 <= i < src.len() - pos ==> #[trigger] errors_from(src, pos)[i]
                == ErrorView::UnexpectedChar(src[pos + i], 1),
    decreases src.len() - pos,
{
    lemma_no_newline_no_lines(src, pos);
    if pos < src.len() {
        lemma_unrecognized_from(src, pos + 1);
        lemma_unrecognized_character(src, pos);
    }
}

proof fn lemma_no_newline_no_lines(src: Seq<char>, pos: int)
    requires
        0 <= pos <= src.len(),
        forall|i: int| 0 <= i < pos ==> #[trigger] src[i] != '\n',
    ensures
        line_at(src, pos) == 1,
    decreases pos,
{
    if pos > 0 {
        lemma_no_newline_no_lines(src, pos - 1);
    }
}

/// The line of a position never decreases along the text.
pub proof fn lemma_line_at_monotonic(src: Seq<char>, a: int, b: int)
    requires
        0 <= a <= b <= src.len(),
    ensures
        line_at(src, a) <= line_at(src, b),
    decreases b - a,
{
    if a < b {
        lemma_line_at_monotonic(src, a, b - 1);
    }
}

/// What a lexeme yields carries the line that the newlines before it give:
/// a token and an unrecognized character the line on which the lexeme
/// begins, an unterminated string the line on which the text ends.
pub proof fn lemma_lines_count_newlines(src: Seq<char>, pos: int)
    requires
        0 <= pos < src.len(),
    ensures
        match lexeme_at(src, pos) {
            Lexeme::Token(token) => token.line == 1 + newlines_before(src, pos),
            Lexeme::Error(ErrorView::UnexpectedChar(_, line)) => line == 1 + newlines_before(
                src,
                pos,
            ),
            Lexeme::Error(ErrorView::UnexpectedEOF(line)) => line == 1 + newlines_before(
                src,
                src.len() as int,
            ),
            Lexeme::Skipped => true,
        },
        eof_token(src).line == 1 + newlines_before(src, src.len() as int),
{
}

proof fn lemma_token_lines_from(src: Seq<char>, pos: int)
    requires
        0 <= pos <= src.len(),
    ensures
        forall|i: int|
            0 <= i < tokens_from(src, pos).len() ==> line_at(src, pos) <= (
            #[trigger] tokens_from(src, pos)[i]).line <= line_at(src, src.len() as int),
        forall|i: int, j: int|
            0 <= i <= j < tokens_from(src, pos).len() ==> (#[trigger] tokens_from(
                src,
                pos,
            )[i]).line <= (#[trigger] tokens_from(src, pos)[j]).line,
    decreases src.len() - pos,
{
    lemma_line_at_monotonic(src, pos, src.len() as int);
    if pos < src.len() {
        let end = lexeme_end(src, pos);
        lemma_lexeme_end_bounds(src, pos);
        lemma_token_lines_from(src, end);
        lemma_line_at_monotonic(src, pos, end);
        let rest = tokens_from(src, end);
        let tokens = tokens_from(src, pos);
        match lexeme_at(src, pos) {
            Lexeme::Token(token) => {
                assert(tokens =~= seq![token] + rest);
                assert(token.line == line_at(src, pos));
                assert forall|i: int| 0 <= i < tokens.len() implies line_at(src, pos) <= (
                #[trigger] tokens[i]).line <= line_at(src, src.len() as int) by {
                    if i > 0 {
                        assert(tokens[i] == rest[i - 1]);
                    }
                }
                assert forall|i: int, j: int| 0 <= i <= j < tokens.len() implies (
                #[trigger] tokens[i]).line <= (#[trigger] tokens[j]).line by {
                    if i > 0 {
                        assert(tokens[i] == rest[i - 1]);
                        assert(tokens[j] == rest[j - 1]);
                    } else if j > 0 {
                        assert(tokens[j] == rest[j - 1]);
                    }
                }
            },
            _ => {
                assert(tokens == rest);
            },
        }
    }
}

/// Line numbers never decrease along the token sequence.
pub proof fn lemma_lines_non_decreasing(src: Seq<char>, i: int, j: int)
    requires
        0 <= i <= j < scanned_tokens(src).len(),
    ensures
        scanned_tokens(src)[i].line <= scanned_tokens(src)[j].line,
{
    lemma_token_lines_from(src, 0);
}

/// Whether the `k`-th of the lexemes that begin at `starts` holds the
/// character at position `i`.
pub open spec fn lexeme_holds(src: Seq<char>, starts: Seq<int>, k: int, i: int) -> bool {
    0 <= k < starts.len() && starts[k] <= i < lexeme_end(src, starts[k])
}

/// Whether a line comment that begins at `start` reaches position `i`: no
/// newline stands between the two.
pub open spec fn comment_reaches(src: Seq<char>, start: int, i: int) -> bool {
    0 <= start <= i && comment_at(src, start) && i < find_char(src, start, '\n')
}

/// Whether position `i` lies between some `//` and the next newline.
pub open spec fn in_comment(src: Seq<char>, i: int) -> bool {
    exists|start: int| comment_reaches(src, start, i)
}

proof fn lemma_lexemes_tile_from(src: Seq<char>, pos: int)
    requires
        0 <= pos <= src.len(),
    ensures
        (lexeme_starts_from(src, pos).len() > 0) == (pos < src.len()),
        pos < src.len() ==> lexeme_starts_from(src, pos)[0] == pos,
        pos < src.len() ==> lexeme_end(src, lexeme_starts_from(src, pos).last()) == src.len(),
        forall|k: int|
            0 <= k < lexeme_starts_from(src, pos).len() ==> pos <= #[trigger] lexeme_starts_from(
                src,
                pos,
            )[k] < src.len(),
        forall|k: int|
            0 <= k < lexeme_starts_from(src, pos).len() - 1 ==> lexeme_end(
                src,
                #[trigger] lexeme_starts_from(src, pos)[k],
            ) == lexeme_starts_from(src, pos)[k + 1],
        forall|k: int, m: int|
            0 <= k < m < lexeme_starts_from(src, pos).len() ==> lexeme_end(
                src,
                #[trigger] lexeme_starts_from(src, pos)[k],
            ) <= #[trigger] lexeme_starts_from(src, pos)[m],
    decreases src.len() - pos,
{
    if pos < src.len() {
        let end = lexeme_end(src, pos);
        lemma_lexeme_end_bounds(src, pos);
        lemma_lexemes_tile_from(src, end);
        let rest = lexeme_starts_from(src, end);
        let starts = lexeme_starts_from(src, pos);
        assert(starts =~= seq![pos] + rest);
        assert forall|k: int| 0 < k < starts.len() implies #[trigger] starts[k] == rest[k - 1] by {}
        if rest.len() > 0 {
            assert(starts.last() == starts[rest.len() as int]);
            assert(starts[1] == rest[0]);
        }
        assert forall|k: int| 0 <= k < starts.len() - 1 implies lexeme_end(
            src,
            #[trigger] starts[k],
        ) == starts[k + 1] by {
            if k > 0 {
                assert(starts[k] == rest[k - 1]);
                assert(starts[k + 1] == rest[k]);
            }
        }
        assert forall|k: int, m: int| 0 <= k < m < starts.len() implies lexeme_end(
            src,
            #[trigger] starts[k],
        ) <= #[trigger] starts[m] by {
            assert(starts[m] == rest[m - 1]);
            if k > 0 {
                assert(starts[k] == rest[k - 1]);
            }
        }
    }
}

/// The lexemes tile the text: the first begins where the text begins, each
/// is non-empty, the next begins where it ends, and the last ends where the
/// text ends.
pub proof fn lemma_lexemes_tile_text(src: Seq<char>)
    ensures
        (lexeme_starts(src).len() > 0) == (src.len() > 0),
        src.len() > 0 ==> lexeme_starts(src)[0] == 0,
        src.len() > 0 ==> lexeme_end(src, lexeme_starts(src).last()) == src.len(),
        forall|k: int|
            0 <= k < lexeme_starts(src).len() ==> 0 <= #[trigger] lexeme_starts(src)[k]
                < lexeme_end(src, lexeme_starts(src)[k]) <= src.len(),
        forall|k: int|
            0 <= k < lexeme_starts(src).len() - 1 ==> lexeme_end(
                src,
                #[trigger] lexeme_starts(src)[k],
            ) == lexeme_starts(src)[k + 1],
{
    lemma_lexemes_tile_from(src, 0);
    let starts = lexeme_starts(src);
    assert forall|k: int| 0 <= k < starts.len() implies 0 <= #[trigger] starts[k] < lexeme_end(
        src,
        starts[k],
    ) <= src.len() by {
        lemma_lexeme_end_bounds(src, starts[k]);
    }
}

proof fn lemma_holding_lexeme(src: Seq<char>, pos: int, i: int) -> (k: int)
    requires
        0 <= pos <= i < src.len(),
    ensures
        lexeme_holds(src, lexeme_starts_from(src, pos), k, i),
    decreases src.len() - pos,
{
    let end = lexeme_end(src, pos);
    lemma_lexeme_end_bounds(src, pos);
    let rest = lexeme_starts_from(src, end);
    let starts = lexeme_starts_from(src, pos);
    assert(starts =~= seq![pos] + rest);
    if i < end {
        0
    } else {
        let k = lemma_holding_lexeme(src, end, i);
        assert(starts[k + 1] == rest[k]);
        k + 1
    }
}

/// Every character is consumed into exactly one lexeme; and into one that
/// yields neither a token nor an error only if the character is blank or
/// lies in a comment.
pub proof fn lemma_character_in_one_lexeme(src: Seq<char>, i: int)
    requires
        0 <= i < src.len(),
    ensures
        exists|k: int| lexeme_holds(src, lexeme_starts(src), k, i),
        forall|k: int, m: int|
            lexeme_holds(src, lexeme_starts(src), k, i) && lexeme_holds(
                src,
                lexeme_starts(src),
                m,
                i,
            ) ==> k == m,
        forall|k: int|
            lexeme_holds(src, lexeme_starts(src), k, i) && lexeme_at(src, lexeme_starts(src)[k])
                is Skipped ==> is_blank(src[i]) || in_comment(src, i),
{
    let starts = lexeme_starts(src);
    let found = lemma_holding_lexeme(src, 0, i);
    assert(lexeme_holds(src, starts, found, i));
    lemma_lexemes_tile_from(src, 0);
    assert forall|k: int, m: int|
        lexeme_holds(src, starts, k, i) && lexeme_holds(src, starts, m, i) implies k == m by {
        if k < m {
            assert(lexeme_end(src, starts[k]) <= starts[m]);
        } else if m < k {
            assert(lexeme_end(src, starts[m]) <= starts[k]);
        }
    }
    assert forall|k: int|
        lexeme_holds(src, starts, k, i) && lexeme_at(src, starts[k]) is Skipped implies is_blank(
            src[i],
        ) || in_comment(src, i) by {
        let start = starts[k];
        assert(0 <= start < src.len());
        if comment_at(src, start) {
            assert(find_char(src, start + 1, '\n') == find_char(src, start + 2, '\n'));
            assert(find_char(src, start, '\n') == find_char(src, start + 1, '\n'));
            assert(comment_reaches(src, start, i));
        }
    }
}

/// Whether `src` holds nothing but blank characters and comments.
pub open spec fn is_blank_text(src: Seq<char>) -> bool {
    forall|i: int| 0 <= i < src.len() ==> is_blank(src[i]) || #[trigger] in_comment(src, i)
}

/// Whether every comment that begins before `pos` has met its newline at
/// `pos` or before it.
spec fn comments_closed(src: Seq<char>, pos: int) -> bool {
    forall|start: int|
        0 <= start < pos && #[trigger] comment_at(src, start) ==> find_char(src, start, '\n')
            <= pos
}

proof fn lemma_find_char_at_most(src: Seq<char>, from: int, at: int, c: char)
    requires
        0 <= from <= at < src.len(),
        src[at] == c,
    ensures
        find_char(src, from, c) <= at,
{
    lemma_find_char(src, from, c);
}

proof fn lemma_blank_from(src: Seq<char>, pos: int)
    requires
        is_blank_text(src),
        0 <= pos <= src.len(),
        comments_closed(src, pos),
    ensures
        tokens_from(src, pos) == seq![eof_token(src)],
        errors_from(src, pos) == Seq::<ErrorView>::empty(),
    decreases src.len() - pos,
{
    if pos < src.len() {
        let c = src[pos];
        let end = lexeme_end(src, pos);
        lemma_lexeme_end_bounds(src, pos);
        if is_blank(c) {
            assert(end == pos + 1);
            assert(comments_closed(src, end)) by {
                assert forall|start: int|
                    0 <= start < end && #[trigger] comment_at(src, start) implies find_char(
                    src,
                    start,
                    '\n',
                ) <= end by {
                    assert(start < pos);
                }
            }
            lemma_blank_from(src, end);
        } else {
            assert(is_blank(src[pos]) || in_comment(src, pos));
            let start = choose|start: int| comment_reaches(src, start, pos);
            assert(comment_reaches(src, start, pos));
            assert(start == pos);
            assert(find_char(src, pos + 1, '\n') == find_char(src, pos + 2, '\n'));
            assert(find_char(src, pos, '\n') == find_char(src, pos + 1, '\n'));
            assert(end == find_char(src, pos, '\n'));
            lemma_find_char(src, pos, '\n');
            if end < src.len() {
                assert(comments_closed(src, end)) by {
                    assert forall|start: int|
                        0 <= start < end && #[trigger] comment_at(src, start) implies find_char(
                        src,
                        start,
                        '\n',
                    ) <= end by {
                        if start >= pos {
                            lemma_find_char_at_most(src, start, end, '\n');
                        }
                    }
                }
                lemma_blank_from(src, end);
            } else {
                assert(tokens_from(src, end) == seq![eof_token(src)]);
                assert(errors_from(src, end) == Seq::<ErrorView>::empty());
            }
        }
    }
}

/// A text of blank characters and comments alone scans without an error to
/// the end-of-input token and nothing else.
pub proof fn lemma_blank_text_yields_only_eof(src: Seq<char>)
    requires
        is_blank_text(src),
    ensures
        scan_result(src) == Ok::<Seq<TokenView>, Seq<ErrorView>>(seq![eof_token(src)]),
{
    lemma_blank_from(src, 0);
}

proof fn lemma_among_first(first: Lexeme, rest: Seq<Lexeme>)
    ensures
        tokens_among(seq![first] + rest) == match first {
            Lexeme::Token(token) => seq![token] + tokens_among(rest),
            _ => tokens_among(rest),
        },
        errors_among(seq![first] + rest) == match first {
            Lexeme::Error(error) => seq![error] + errors_among(rest),
            _ => errors_among(rest),
        },
{
    let one = seq![first];
    let is_token = |l: Lexeme| l is Token;
    let is_error = |l: Lexeme| l is Error;
    Seq::filter_distributes_over_add(one, rest, is_token);
    Seq::filter_distributes_over_add(one, rest, is_error);
    reveal_with_fuel(Seq::filter, 2);
    assert(one.drop_last() =~= Seq::<Lexeme>::empty());
    assert(one.filter(is_token) =~= if first is Token {
        one
    } else {
        Seq::<Lexeme>::empty()
    });
    assert(one.filter(is_error) =~= if first is Error {
        one
    } else {
        Seq::<Lexeme>::empty()
    });
    match first {
        Lexeme::Token(token) => {
            assert(tokens_among(one + rest) =~= seq![token] + tokens_among(rest));
            assert(Seq::<Lexeme>::empty() + rest.filter(is_error) =~= rest.filter(is_error));
        },
        Lexeme::Error(error) => {
            assert(errors_among(one + rest) =~= seq![error] + errors_among(rest));
            assert(Seq::<Lexeme>::empty() + rest.filter(is_token) =~= rest.filter(is_token));
        },
        Lexeme::Skipped => {
            assert(Seq::<Lexeme>::empty() + rest.filter(is_error) =~= rest.filter(is_error));
            assert(Seq::<Lexeme>::empty() + rest.filter(is_token) =~= rest.filter(is_token));
        },
    }
}

proof fn lemma_yield_of_lexemes_from(src: Seq<char>, pos: int)
    requires
        0 <= pos <= src.len(),
    ensures
        tokens_from(src, pos) == tokens_among(lexemes_from(src, pos)).push(eof_token(src)),
        errors_from(src, pos) == errors_among(lexemes_from(src, pos)),
    decreases src.len() - pos,
{
    if pos < src.len() {
        let end = lexeme_end(src, pos);
        lemma_lexeme_end_bounds(src, pos);
        lemma_yield_of_lexemes_from(src, end);
        let first = lexeme_at(src, pos);
        let rest = lexemes_from(src, end);
        assert(lexemes_from(src, pos) =~= seq![first] + rest);
        lemma_among_first(first, rest);
        match first {
            Lexeme::Token(token) => {
                assert(tokens_from(src, pos) =~= (seq![token] + tokens_among(rest)).push(
                    eof_token(src),
                ));
            },
            _ => {},
        }
    } else {
        assert(lexemes_from(src, pos) =~= Seq::<Lexeme>::empty());
        assert(tokens_among(Seq::<Lexeme>::empty()) =~= Seq::<TokenView>::empty());
        assert(errors_among(Seq::<Lexeme>::empty()) =~= Seq::<ErrorView>::empty());
        assert(tokens_from(src, pos) =~= Seq::<TokenView>::empty().push(eof_token(src)));
    }
}

/// The tokens of a text are the tokens among its lexemes, in order, and then
/// the end-of-input token; its errors are the errors among its lexemes, in
/// order. So each lexeme yields at most one of them, and yields it once.
pub proof fn lemma_yield_of_lexemes(src: Seq<char>)
    ensures
        scanned_tokens(src) == tokens_among(lexemes(src)).push(eof_token(src)),
        scanned_errors(src) == errors_among(lexemes(src)),
{
    lemma_yield_of_lexemes_from(src, 0);
}

/// Whether a lexeme can yield a token of this kind: punctuation, an operator
/// or a string. No lexical rule yields an identifier, a number or a keyword.
pub open spec fn is_lexeme_kind(kind: TokenType) -> bool {
    ||| kind == TokenType::String
    ||| exists|c: char| single_kind(c) == Some(kind)
    ||| exists|c: char| paired_kind(c) == Some(kind)
}

/// The token of a lexeme is of a kind that a lexical rule yields, which is
/// never the end-of-input kind.
pub proof fn lemma_lexeme_kind(src: Seq<char>, pos: int)
    requires
        0 <= pos < src.len(),
    ensures
        lexeme_at(src, pos) matches Lexeme::Token(token) ==> is_lexeme_kind(token.token_type)
            && token.token_type != TokenType::Eof,
{
    let c = src[pos];
    if operator_pair_at(src, pos) {
        assert(paired_kind(c) == Some(paired_kind(c)->0));
    } else if single_kind(c) is Some {
        assert(single_kind(c) == Some(single_kind(c)->0));
    }
}

proof fn lemma_one_eof_from(src: Seq<char>, pos: int)
    requires
        0 <= pos <= src.len(),
    ensures
        tokens_from(src, pos).len() >= 1,
        tokens_from(src, pos).last() == eof_token(src),
        forall|i: int|
            0 <= i < tokens_from(src, pos).len() - 1 ==> is_lexeme_kind(
                (#[trigger] tokens_from(src, pos)[i]).token_type,
            ) && tokens_from(src, pos)[i].token_type != TokenType::Eof,
    decreases src.len() - pos,
{
    if pos < src.len() {
        let end = lexeme_end(src, pos);
        lemma_lexeme_end_bounds(src, pos);
        lemma_one_eof_from(src, end);
        lemma_lexeme_kind(src, pos);
        let rest = tokens_from(src, end);
        let tokens = tokens_from(src, pos);
        match lexeme_at(src, pos) {
            Lexeme::Token(token) => {
                assert(tokens =~= seq![token] + rest);
                assert(tokens.last() == rest.last());
                assert forall|i: int| 0 <= i < tokens.len() - 1 implies is_lexeme_kind(
                    (#[trigger] tokens[i]).token_type,
                ) && tokens[i].token_type != TokenType::Eof by {
                    if i > 0 {
                        assert(tokens[i] == rest[i - 1]);
                    }
                }
            },
            _ => {},
        }
    }
}

/// The token sequence ends with the end-of-input token and holds no other:
/// every token before it is of a kind that a lexical rule yields.
pub proof fn lemma_exactly_one_eof(src: Seq<char>)
    ensures
        scanned_tokens(src).len() >= 1,
        scanned_tokens(src).last() == eof_token(src),
        forall|i: int|
            0 <= i < scanned_tokens(src).len() - 1 ==> is_lexeme_kind(
                (#[trigger] scanned_tokens(src)[i]).token_type,
            ) && scanned_tokens(src)[i].token_type != TokenType::Eof,
{
    lemma_one_eof_from(src, 0);
}

} // verus!
