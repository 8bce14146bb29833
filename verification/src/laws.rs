//! The general laws of scanning, each proved of the model that
//! [`crate::scanner::Scanner::scan_tokens`] is proved to implement.

use vstd::prelude::*;

use crate::model::TokenSpan;
use crate::model::emit;
use crate::model::eof_span;
use crate::model::is_two_char_start;
use crate::model::one_char_type;
use crate::model::opt_seq;
use crate::model::scan_from;
use crate::model::scan_spec;
use crate::model::scan_step;
use crate::model::lemma_scan_step_bounds;
use crate::model::token_views;
use crate::model::two_char_step;
use crate::model::two_char_type;
use crate::token::LiteralView;
use crate::token::TokenView;
use crate::token_type::TokenType;

verus! {

/// The token `t` was recognized at or after offset `pos`: its span lies
/// inside the source and its lexeme is exactly the source slice its span
/// delimits.
pub open spec fn well_placed(s: Seq<char>, pos: int, t: TokenSpan) -> bool {
    &&& pos <= t.start <= t.end <= s.len()
    &&& t.token.lexeme == s.subrange(t.start, t.end)
}

/// The token or error a dispatch step emits spans exactly the characters the
/// step consumed, from the step's position to where it leaves the cursor.
proof fn lemma_scan_step_token(s: Seq<char>, pos: int, line: int)
    requires
        0 <= pos < s.len(),
    ensures
        scan_step(s, pos, line).token matches Some(t) ==> t.start == pos && t.end == scan_step(
            s,
            pos,
            line,
        ).next && well_placed(s, pos, t),
{
    lemma_scan_step_bounds(s, pos, line);
}

/// Every token a scan from `pos` produces is recognized from a slice of the
/// source at or after `pos` — its lexeme is exactly that slice — and the
/// slices come in source order, without overlap.
#[verifier::rlimit(100)]
proof fn lemma_scan_from_slices(s: Seq<char>, pos: int, line: int)
    requires
        0 <= pos <= s.len(),
    ensures
        forall|i: int|
            0 <= i < scan_from(s, pos, line).tokens.len() ==> well_placed(
                s,
                pos,
                #[trigger] scan_from(s, pos, line).tokens[i],
            ),
        forall|i: int|
            0 <= i && i + 1 < scan_from(s, pos, line).tokens.len() ==> (#[trigger] scan_from(
                s,
                pos,
                line,
            ).tokens[i]).end <= scan_from(s, pos, line).tokens[i + 1].start,
    decreases s.len() - pos,
{
    let m = scan_from(s, pos, line);
    if pos < s.len() {
        lemma_scan_step_bounds(s, pos, line);
        lemma_scan_step_token(s, pos, line);
        let st = scan_step(s, pos, line);
        let rest = scan_from(s, st.next, st.line);
        lemma_scan_from_slices(s, st.next, st.line);
        assert(m.tokens == opt_seq(st.token) + rest.tokens);
        assert forall|i: int| 0 <= i < m.tokens.len() implies well_placed(
            s,
            pos,
            #[trigger] m.tokens[i],
        ) by {
            match st.token {
                Some(t) => {
                    if i == 0 {
                        assert(m.tokens[0] == t);
                    } else {
                        assert(m.tokens[i] == rest.tokens[i - 1]);
                        assert(well_placed(s, st.next, rest.tokens[i - 1]));
                    }
                },
                None => {
                    assert(m.tokens[i] == rest.tokens[i]);
                    assert(well_placed(s, st.next, rest.tokens[i]));
                },
            }
        }
        assert forall|i: int| 0 <= i && i + 1 < m.tokens.len() implies (#[trigger] m.tokens[i]).end
            <= m.tokens[i + 1].start by {
            match st.token {
                Some(t) => {
                    if i == 0 {
                        assert(m.tokens[0] == t);
                        assert(m.tokens[1] == rest.tokens[0]);
                        assert(well_placed(s, st.next, rest.tokens[0]));
                    } else {
                        assert(m.tokens[i] == rest.tokens[i - 1]);
                        assert(m.tokens[i + 1] == rest.tokens[i]);
                    }
                },
                None => {
                    assert(m.tokens[i] == rest.tokens[i]);
                    assert(m.tokens[i + 1] == rest.tokens[i + 1]);
                },
            }
        }
    }
}

/// For every source text, the scan terminates, and its token sequence is
/// non-empty with the terminal end-of-input token as its last element:
/// fixed lexeme `"EOF"`, no literal value, stamped with the final line of
/// the scan.
pub proof fn lemma_scan_ends_with_eof(s: Seq<char>)
    ensures
        token_views(s).len() >= 1,
        token_views(s).last() == (TokenView {
            token_type: TokenType::Eof,
            lexeme: "EOF"@,
            line: scan_spec(s).line,
            literal: LiteralView::Null,
        }),
{
    let m = scan_from(s, 0, 1);
    assert(scan_spec(s).tokens == m.tokens.push(eof_span(s, m.line)));
    assert(scan_spec(s).tokens.last() == eof_span(s, m.line));
    assert(token_views(s).last() == scan_spec(s).tokens.last().token);
}

/// Every token but the terminal one is recognized from a half-open interval
/// of source offsets; its lexeme is exactly that source slice, and the
/// intervals come in source order, without overlap — so the lexemes, in
/// order, are disjoint slices of the source text. The terminal token's
/// interval is empty, at the end of the source.
#[verifier::rlimit(50)]
pub proof fn lemma_lexemes_are_source_slices(s: Seq<char>)
    ensures
        scan_spec(s).tokens.len() >= 1,
        forall|i: int|
            0 <= i < scan_spec(s).tokens.len() - 1 ==> well_placed(
                s,
                0,
                #[trigger] scan_spec(s).tokens[i],
            ),
        forall|i: int|
            0 <= i && i + 1 < scan_spec(s).tokens.len() - 1 ==> (#[trigger] scan_spec(
                s,
            ).tokens[i]).end <= scan_spec(s).tokens[i + 1].start,
        scan_spec(s).tokens.last().start == s.len(),
        scan_spec(s).tokens.last().end == s.len(),
{
    lemma_scan_from_slices(s, 0, 1);
    let m = scan_from(s, 0, 1);
    assert(scan_spec(s).tokens == m.tokens.push(eof_span(s, m.line)));
    assert forall|i: int| 0 <= i < scan_spec(s).tokens.len() - 1 implies well_placed(
        s,
        0,
        #[trigger] scan_spec(s).tokens[i],
    ) by {
        assert(scan_spec(s).tokens[i] == m.tokens[i]);
    }
    assert forall|i: int| 0 <= i && i + 1 < scan_spec(s).tokens.len() - 1 implies (#[trigger] scan_spec(
        s,
    ).tokens[i]).end <= scan_spec(s).tokens[i + 1].start by {
        assert(scan_spec(s).tokens[i] == m.tokens[i]);
        assert(scan_spec(s).tokens[i + 1] == m.tokens[i + 1]);
    }
}

/// Two-character operators are greedily preferred: when `'!'`, `'='`, `'<'`
/// or `'>'` is followed by `'='`, the dispatch step consumes both characters
/// and emits the single two-character operator token, never the two
/// one-character tokens; followed by anything else — or by the end of the
/// source — it consumes one character and emits the one-character operator
/// token alone.
pub proof fn lemma_greedy_two_char_operators(s: Seq<char>, pos: int, line: int)
    requires
        0 <= pos < s.len(),
        is_two_char_start(s[pos]),
    ensures
        scan_step(s, pos, line) == two_char_step(s, pos, line),
        pos + 1 < s.len() && s[pos + 1] == '=' ==> scan_step(s, pos, line) == emit(
            s,
            pos,
            pos + 2,
            line,
            two_char_type(s[pos]),
            LiteralView::Null,
        ),
        !(pos + 1 < s.len() && s[pos + 1] == '=') ==> scan_step(s, pos, line) == emit(
            s,
            pos,
            pos + 1,
            line,
            one_char_type(s[pos]),
            LiteralView::Null,
        ),
{
}

/// Scanning is a pure function of the source text alone: two independent
/// scans of equal sources yield element-wise equal token sequences and
/// equal diagnostics.
pub proof fn lemma_scan_deterministic(s1: Seq<char>, s2: Seq<char>)
    requires
        s1 == s2,
    ensures
        token_views(s1) == token_views(s2),
        scan_spec(s1).errors == scan_spec(s2).errors,
        forall|i: int|
            0 <= i < token_views(s1).len() ==> token_views(s1)[i] == token_views(s2)[i],
{
}

} // verus!
