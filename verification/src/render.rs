use vstd::prelude::*;
use vstd::string::*;
use crate::board::Board;
use crate::piece::PieceType;
use crate::position::Position;
use crate::rank::Rank;
use crate::square::Square;

verus! {

impl Board {
    /// The marks of the first `upto` pieces that stand on square `t`, each followed by a
    /// space.
    pub open spec fn marks(self, t: int, upto: int) -> Seq<char>
        decreases upto,
    {
        if upto <= 0 {
            Seq::empty()
        } else {
            let piece = PieceType::spec_from_index(upto - 1);
            self.marks(t, upto - 1) + (if self.holds(piece, t as u64) {
                piece.spec_text() + " "@
            } else {
                Seq::empty()
            })
        }
    }

    /// Whether one of the first `upto` pieces stands on square `t`.
    pub open spec fn marked(self, t: int, upto: int) -> bool
        decreases upto,
    {
        upto > 0 && (self.marked(t, upto - 1) || self.holds(
            PieceType::spec_from_index(upto - 1),
            t as u64,
        ))
    }

    /// The text of square `t`: the marks of the pieces on it, or a dot for an empty square,
    /// each followed by a space.
    pub open spec fn cell(self, t: int) -> Seq<char> {
        self.marks(t, 12) + (if self.marked(t, 12) {
            Seq::empty()
        } else {
            ". "@
        })
    }

    /// The text of the first `upto` squares of row `row`.
    pub open spec fn cells(self, row: int, upto: int) -> Seq<char>
        decreases upto,
    {
        if upto <= 0 {
            Seq::empty()
        } else {
            self.cells(row, upto - 1) + self.cell(row * 8 + upto - 1)
        }
    }

    /// The line of row `row`: two spaces, the rank's digit, two spaces, the eight squares,
    /// and a line break.
    pub open spec fn line(self, row: int) -> Seq<char> {
        "  "@ + Rank::spec_of(row).spec_text() + "  "@ + self.cells(row, 8) + "\n"@
    }

    /// The lines of the first `upto` rows, from the 8th rank down.
    pub open spec fn lines(self, upto: int) -> Seq<char>
        decreases upto,
    {
        if upto <= 0 {
            Seq::empty()
        } else {
            self.lines(upto - 1) + self.line(upto - 1)
        }
    }

    /// The printed position: a line break, the eight rows with their rank digits, the file
    /// letters, and the lines that tell the side to move, the en-passant square and the
    /// castling rights.
    pub open spec fn text(self) -> Seq<char> {
        "\n"@ + self.lines(8)
            + "\n     a b c d e f g h\n\n     FEN:        Not Implemented\n     Side        "@
            + self.side.spec_text() + "\n     En-passant: "@ + self.en_passant.spec_text()
            + "\n     Castling:   "@ + self.rights.spec_text() + "\n"@
    }
}

/// Appends `part` to `text`, whose view was `base + done`.
fn append_to(text: &mut String, part: &str, Ghost(base): Ghost<Seq<char>>, Ghost(done): Ghost<Seq<char>>)
    requires
        old(text)@ == base + done,
    ensures
        final(text)@ == base + (done + part@),
{
    text.append(part);
    assert(text@ =~= base + (done + part@));
}

impl Position {
    /// Appends the text of `square` to `text`.
    #[verifier::rlimit(50)]
    fn append_cell(&self, text: &mut String, square: Square)
        requires
            square.is_some(),
        ensures
            final(text)@ == old(text)@ + self@.cell(square.0 as int),
    {
        let ghost base = text@;
        let ghost t = square.0 as int;
        let mut is_occupied = false;
        let mut i: u8 = 0;
        assert(text@ =~= base + self@.marks(t, 0));
        while i < 12
            invariant
                i <= 12,
                square.is_some(),
                t == square.0,
                text@ == base + self@.marks(t, i as int),
                is_occupied == self@.marked(t, i as int),
            decreases 12 - i,
        {
            let piece = PieceType::from_index(i);
            if self.bbs[piece.index()].is_set_sq(square) {
                append_to(text, piece.to_str(), Ghost(base), Ghost(self@.marks(t, i as int)));
                append_to(
                    text,
                    " ",
                    Ghost(base),
                    Ghost(self@.marks(t, i as int) + piece.spec_text()),
                );
                is_occupied = true;
                assert(text@ =~= base + self@.marks(t, i + 1));
            }
            i = i + 1;
        }
        if !is_occupied {
            append_to(text, ". ", Ghost(base), Ghost(self@.marks(t, 12)));
        }
        assert(text@ =~= base + self@.cell(t));
    }

    /// Appends the line of row `row` to `text`.
    #[verifier::rlimit(50)]
    fn append_line(&self, text: &mut String, row: u8)
        requires
            row < 8,
        ensures
            final(text)@ == old(text)@ + self@.line(row as int),
    {
        let ghost base = text@;
        let ghost label = "  "@ + Rank::spec_of(row as int).spec_text() + "  "@;
        text.append("  ");
        text.append(Rank::from(row).to_str());
        text.append("  ");
        assert(text@ =~= base + (label + self@.cells(row as int, 0)));
        let mut file: u8 = 0;
        while file < 8
            invariant
                file <= 8,
                row < 8,
                text@ == base + (label + self@.cells(row as int, file as int)),
            decreases 8 - file,
        {
            self.append_cell(text, Square(row * 8 + file));
            assert(text@ =~= base + (label + self@.cells(row as int, file + 1)));
            file = file + 1;
        }
        append_to(text, "\n", Ghost(base), Ghost(label + self@.cells(row as int, 8)));
        assert(text@ =~= base + self@.line(row as int));
    }

    /// The position as text: the board from the 8th rank down, one line a rank with the
    /// rank's digit in front, a dot for an empty square and a letter for a piece; below it
    /// the file letters, the side to move, the en-passant square and the castling rights.
    pub fn to_string(&self) -> (r: String)
        ensures
            r@ == self@.text(),
    {
        let mut text = String::from_str("\n");
        let ghost base = "\n"@;
        assert(text@ =~= base + self@.lines(0));
        let mut row: u8 = 0;
        while row < 8
            invariant
                row <= 8,
                text@ == base + self@.lines(row as int),
            decreases 8 - row,
        {
            self.append_line(&mut text, row);
            assert(text@ =~= base + self@.lines(row + 1));
            row = row + 1;
        }
        text.append(
            "\n     a b c d e f g h\n\n     FEN:        Not Implemented\n     Side        ",
        );
        text.append(self.side.to_str());
        text.append("\n     En-passant: ");
        let en_passant = self.en_passant_sq.to_string();
        text.append(en_passant.as_str());
        text.append("\n     Castling:   ");
        let rights = self.castling_rights.to_string();
        text.append(rights.as_str());
        text.append("\n");
        text
    }
}

} // verus!
