//! What a report may hold: no control character but line feeds, and the escape sequences that
//! color its titles.

use vstd::prelude::*;

use crate::presentation;
use crate::text;

verus! {

/// A piece of a report.
pub enum Piece {
    Plain(Seq<char>),
    Colored(u8, Seq<char>),
}

impl Piece {
    /// The characters of a piece.
    pub open spec fn written(self) -> Seq<char> {
        match self {
            Piece::Plain(shown) => shown,
            Piece::Colored(color, shown) => presentation::bold_colored(color, shown),
        }
    }

    /// Whether a piece may stand in a report: plain text without control characters but line
    /// feeds, or, where the report has colors, inert text in one of the terminal colors.
    pub open spec fn is_harmless(self, styled: bool) -> bool {
        match self {
            Piece::Plain(shown) => text::lined(shown),
            Piece::Colored(color, shown) => styled && color < 8 && text::inert(shown),
        }
    }
}

/// The text of pieces one behind the other.
pub open spec fn assembled(pieces: Seq<Piece>) -> Seq<char>
    decreases pieces.len(),
{
    if pieces.len() == 0 {
        Seq::empty()
    } else {
        assembled(pieces.drop_last()) + pieces.last().written()
    }
}

/// Whether every piece is harmless.
pub open spec fn all_harmless(pieces: Seq<Piece>, styled: bool) -> bool {
    forall|i: int| 0 <= i < pieces.len() ==> (#[trigger] pieces[i]).is_harmless(styled)
}

/// Whether a report is made of harmless pieces alone.
#[verifier::opaque]
pub open spec fn safe(report: Seq<char>, styled: bool) -> bool {
    exists|pieces: Seq<Piece>|
        all_harmless(pieces, styled) && #[trigger] assembled(pieces) == report
}

proof fn lemma_piece_is_safe(piece: Piece, styled: bool)
    requires
        piece.is_harmless(styled),
    ensures
        safe(piece.written(), styled),
{
    reveal(safe);
    let pieces = seq![piece];
    assert(pieces.drop_last() =~= Seq::empty());
    assert(assembled(pieces.drop_last()) =~= Seq::empty());
    assert(assembled(pieces) =~= piece.written());
    assert(all_harmless(pieces, styled));
}

pub proof fn lemma_lined_is_safe(shown: Seq<char>, styled: bool)
    ensures
        text::lined(shown) ==> safe(shown, styled),
{
    if text::lined(shown) {
        lemma_piece_is_safe(Piece::Plain(shown), styled);
    }
}

pub proof fn lemma_inert_is_safe(shown: Seq<char>, styled: bool)
    ensures
        text::inert(shown) ==> safe(shown, styled),
{
    lemma_lined_is_safe(shown, styled);
}

pub proof fn lemma_colored_is_safe(color: u8, shown: Seq<char>)
    requires
        color < 8,
    ensures
        text::inert(shown) ==> safe(presentation::bold_colored(color, shown), true),
{
    if text::inert(shown) {
        lemma_piece_is_safe(Piece::Colored(color, shown), true);
    }
}

proof fn lemma_assembled_join(first: Seq<Piece>, second: Seq<Piece>)
    ensures
        assembled(first + second) == assembled(first) + assembled(second),
    decreases second.len(),
{
    if second.len() == 0 {
        assert(first + second =~= first);
        assert(assembled(first) + assembled(second) =~= assembled(first));
    } else {
        lemma_assembled_join(first, second.drop_last());
        assert((first + second).drop_last() =~= first + second.drop_last());
        assert((first + second).last() == second.last());
        assert(assembled(first + second) =~= assembled(first) + assembled(second));
    }
}

/// Safe reports one behind the other are safe.
pub proof fn lemma_safe_join(first: Seq<char>, second: Seq<char>, styled: bool)
    ensures
        safe(first, styled) && safe(second, styled) ==> safe(first + second, styled),
{
    reveal(safe);
    if safe(first, styled) && safe(second, styled) {
        let front = choose|pieces: Seq<Piece>|
            all_harmless(pieces, styled) && #[trigger] assembled(pieces) == first;
        let back = choose|pieces: Seq<Piece>|
            all_harmless(pieces, styled) && #[trigger] assembled(pieces) == second;
        let pieces = front + back;
        lemma_assembled_join(front, back);
        assert(all_harmless(pieces, styled)) by {
            assert forall|i: int| 0 <= i < pieces.len() implies (
            #[trigger] pieces[i]).is_harmless(styled) by {
                if i < front.len() {
                    assert(pieces[i] == front[i]);
                } else {
                    assert(pieces[i] == back[i - front.len()]);
                }
            }
        }
    }
}

proof fn lemma_plain_pieces_are_lined(pieces: Seq<Piece>)
    requires
        all_harmless(pieces, false),
    ensures
        text::lined(assembled(pieces)),
    decreases pieces.len(),
{
    if pieces.len() > 0 {
        let front = pieces.drop_last();
        assert(all_harmless(front, false)) by {
            assert forall|i: int| 0 <= i < front.len() implies (
            #[trigger] front[i]).is_harmless(false) by {
                assert(front[i] == pieces[i]);
            }
        }
        lemma_plain_pieces_are_lined(front);
        assert(pieces[pieces.len() - 1].is_harmless(false));
        let written = assembled(pieces);
        let before = assembled(front);
        let after = pieces.last().written();
        assert forall|i: int|
            0 <= i < written.len() && text::is_control(#[trigger] written[i]) implies written[i]
            == '\n' by {
            if i < before.len() {
                assert(written[i] == before[i]);
            } else {
                assert(written[i] == after[i - before.len()]);
            }
        }
    }
}

/// A safe report without colors holds no control character but line feeds.
pub proof fn plain_reports_hold_only_line_feeds(report: Seq<char>)
    requires
        safe(report, false),
    ensures
        text::lined(report),
{
    reveal(safe);
    let pieces = choose|pieces: Seq<Piece>|
        all_harmless(pieces, false) && #[trigger] assembled(pieces) == report;
    lemma_plain_pieces_are_lined(pieces);
}

} // verus!
