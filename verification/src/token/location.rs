use vstd::prelude::*;

verus! {

/// A line and column within a source file, both counted from zero.
#[derive(Copy, Clone, Debug, PartialEq, Eq, Structural, Default)]
pub struct SourcePosition {
    pub line: usize,
    pub column: usize,
}

impl SourcePosition {
    pub fn at(line: usize, column: usize) -> (r: Self)
        ensures
            r.line == line,
            r.column == column,
    {
        SourcePosition { line, column }
    }

    pub fn line(&self) -> (r: usize)
        ensures
            r == self.line,
    {
        self.line
    }

    pub fn column(&self) -> (r: usize)
        ensures
            r == self.column,
    {
        self.column
    }
}

/// The position following `pos` after reading a character which ends a line.
pub open spec fn spec_next_line(pos: SourcePosition) -> SourcePosition {
    SourcePosition { line: (pos.line + 1) as usize, column: 0 }
}

/// The position following `pos` after reading a character which does not end a line.
pub open spec fn spec_next_column(pos: SourcePosition) -> SourcePosition {
    SourcePosition { line: pos.line, column: (pos.column + 1) as usize }
}

/// A position within a named source file.
#[derive(Debug, PartialEq, Eq, Default)]
pub struct SourceLocation {
    pub file: String,
    pub position: SourcePosition,
}

impl Clone for SourceLocation {
    fn clone(&self) -> (r: Self)
        ensures
            r == *self,
    {
        SourceLocation { file: self.file.clone(), position: self.position }
    }
}

impl SourceLocation {
    /// The first character of the named file.
    pub fn at_start_of(file: &str) -> (r: Self)
        ensures
            r.file@ == file@,
            r.position == (SourcePosition { line: 0, column: 0 }),
    {
        SourceLocation { file: String::from_str(file), position: SourcePosition { line: 0, column: 0 } }
    }

    /// The given position within the same file.
    pub fn at(&self, position: SourcePosition) -> (r: Self)
        ensures
            r.file == self.file,
            r.position == position,
    {
        SourceLocation { file: self.file.clone(), position }
    }

    pub fn file(&self) -> (r: &str)
        ensures
            r@ == self.file@,
    {
        self.file.as_str()
    }

    pub fn position(&self) -> (r: SourcePosition)
        ensures
            r == self.position,
    {
        self.position
    }

    /// Moves to the start of the next line.
    pub fn advance_line(&mut self)
        requires
            old(self).position.line < usize::MAX,
        ensures
            final(self).file == old(self).file,
            final(self).position == spec_next_line(old(self).position),
    {
        self.position = SourcePosition { line: self.position.line + 1, column: 0 };
    }

    /// Moves to the next column of the same line.
    pub fn advance_column(&mut self)
        requires
            old(self).position.column < usize::MAX,
        ensures
            final(self).file == old(self).file,
            final(self).position == spec_next_column(old(self).position),
    {
        self.position = SourcePosition {
            line: self.position.line,
            column: self.position.column + 1,
        };
    }
}

} // verus!
