//! Levels: the fixed presets and the custom level that a query string asks for.

use vstd::prelude::*;
use crate::query::{chars_of, find, is_word, number_in, read_number, split};
use crate::spatial::{Position, Size};

verus! {

/// Columns of the board that the presets are laid out on.
pub const WIDTH: usize = 16;

/// Rows of the board that the presets are laid out on.
pub const HEIGHT: usize = 30;

/// The shape of a board and what it hides.
#[derive(Debug, Clone, Copy, PartialEq, Eq, Structural)]
pub enum Level {
    Small,
    Large,
    LargeWithWormhole,
    Custom { width: usize, height: usize, mines: usize, wormholes: usize },
}

/// Why a query string does not describe a custom level.
#[derive(Debug, Clone, Copy, PartialEq, Eq, Structural)]
pub enum LevelError {
    /// `width` is no number between 16 and 64.
    InvalidWidth,
    /// `height` is no number between 16 and 64.
    InvalidHeight,
    /// `mines` is no number between 1 and 999.
    InvalidMines,
    /// `wormholes` is no number between 0 and 999.
    InvalidWormholes,
    /// The board has fewer cells than mines and wormholes together.
    TooManyMines,
}

impl LevelError {
    pub open spec fn spec_message(self) -> Seq<char> {
        match self {
            LevelError::InvalidWidth => "'width' parameter should be a integer between 16 and 64"@,
            LevelError::InvalidHeight => "'height' parameter should be a integer between 16 and 64"@,
            LevelError::InvalidMines => "'mines' parameter should be a integer between 1 and 1000"@,
            LevelError::InvalidWormholes => "'wormholes' parameter should be a integer between 0 and 1000"@,
            LevelError::TooManyMines => "Too many mines and wormholes"@,
        }
    }

    /// The error in words.
    pub fn message(&self) -> (text: String)
        ensures
            text@ == self.spec_message(),
    {
        match self {
            LevelError::InvalidWidth => "'width' parameter should be a integer between 16 and 64".to_owned(),
            LevelError::InvalidHeight => "'height' parameter should be a integer between 16 and 64".to_owned(),
            LevelError::InvalidMines => "'mines' parameter should be a integer between 1 and 1000".to_owned(),
            LevelError::InvalidWormholes => "'wormholes' parameter should be a integer between 0 and 1000".to_owned(),
            LevelError::TooManyMines => "Too many mines and wormholes".to_owned(),
        }
    }
}

/// What the fields of a query string have asked for so far.
#[derive(Debug, Clone, Copy, PartialEq, Eq, Structural)]
pub struct CustomRequest {
    pub width: usize,
    pub height: usize,
    pub mines: usize,
    pub wormholes: usize,
    /// Whether any of the four was named.
    pub custom: bool,
}

impl CustomRequest {
    /// The request before any field is read.
    pub open spec fn initial() -> CustomRequest {
        CustomRequest { width: 16, height: 30, mines: 99, wormholes: 99, custom: false }
    }

    /// The request after the field `field`, a key and a value with `=`
    /// between them. A field without `=` or with another key changes nothing.
    pub open spec fn apply(self, field: Seq<char>) -> Result<CustomRequest, LevelError> {
        match field.index_of_first('=') {
            None => Ok(self),
            Some(k) => {
                let key = field.take(k);
                let value = field.skip(k + 1);
                if key == "width"@ {
                    match number_in(value, 16, 64) {
                        Some(n) => Ok(CustomRequest { width: n, custom: true, ..self }),
                        None => Err(LevelError::InvalidWidth),
                    }
                } else if key == "height"@ {
                    match number_in(value, 16, 64) {
                        Some(n) => Ok(CustomRequest { height: n, custom: true, ..self }),
                        None => Err(LevelError::InvalidHeight),
                    }
                } else if key == "mines"@ {
                    match number_in(value, 1, 999) {
                        Some(n) => Ok(CustomRequest { mines: n, custom: true, ..self }),
                        None => Err(LevelError::InvalidMines),
                    }
                } else if key == "wormholes"@ {
                    match number_in(value, 0, 999) {
                        Some(n) => Ok(CustomRequest { wormholes: n, custom: true, ..self }),
                        None => Err(LevelError::InvalidWormholes),
                    }
                } else {
                    Ok(self)
                }
            },
        }
    }

    /// The request after `fields`, read in order. The first field that is
    /// wrong decides the error.
    pub open spec fn apply_all(self, fields: Seq<Seq<char>>) -> Result<CustomRequest, LevelError>
        decreases fields.len(),
    {
        if fields.len() == 0 {
            Ok(self)
        } else {
            match self.apply_all(fields.drop_last()) {
                Ok(request) => request.apply(fields.last()),
                Err(e) => Err(e),
            }
        }
    }

    /// The level that the request stands for: none if no field named one of
    /// the four numbers, and none that would hold more than its cells.
    pub open spec fn level(self) -> Result<Option<Level>, LevelError> {
        if !self.custom {
            Ok(None)
        } else if self.mines + self.wormholes <= self.width * self.height {
            Ok(
                Some(
                    Level::Custom {
                        width: self.width,
                        height: self.height,
                        mines: self.mines,
                        wormholes: self.wormholes,
                    },
                ),
            )
        } else {
            Err(LevelError::TooManyMines)
        }
    }

    /// Whether each number of the request is one that a field may ask for.
    pub open spec fn in_bounds(self) -> bool {
        &&& 16 <= self.width <= 64
        &&& 16 <= self.height <= 64
        &&& 1 <= self.mines <= 999
        &&& self.wormholes <= 999
    }

    /// Fields keep the numbers of a request within their bounds.
    pub proof fn lemma_apply_all(self, fields: Seq<Seq<char>>)
        requires
            self.in_bounds(),
        ensures
            self.apply_all(fields) matches Ok(request) ==> request.in_bounds(),
        decreases fields.len(),
    {
        if fields.len() > 0 {
            self.lemma_apply_all(fields.drop_last());
        }
    }

    fn read(self, chars: &Vec<char>, start: usize, end: usize) -> (r: Result<
        CustomRequest,
        LevelError,
    >)
        requires
            start <= end <= chars.len(),
            self.in_bounds(),
        ensures
            r == self.apply(chars@.subrange(start as int, end as int)),
            r matches Ok(request) ==> request.in_bounds(),
    {
        let ghost field = chars@.subrange(start as int, end as int);
        match find(chars, start, end, '=') {
            None => Ok(self),
            Some(eq) => {
                assert(field.take(eq - start) == chars@.subrange(start as int, eq as int));
                assert(field.skip(eq - start + 1) == chars@.subrange(eq + 1, end as int));
                if is_word(chars, start, eq, "width") {
                    match read_number(chars, eq + 1, end, 16, 64) {
                        Some(n) => Ok(CustomRequest { width: n, custom: true, ..self }),
                        None => Err(LevelError::InvalidWidth),
                    }
                } else if is_word(chars, start, eq, "height") {
                    match read_number(chars, eq + 1, end, 16, 64) {
                        Some(n) => Ok(CustomRequest { height: n, custom: true, ..self }),
                        None => Err(LevelError::InvalidHeight),
                    }
                } else if is_word(chars, start, eq, "mines") {
                    match read_number(chars, eq + 1, end, 1, 999) {
                        Some(n) => Ok(CustomRequest { mines: n, custom: true, ..self }),
                        None => Err(LevelError::InvalidMines),
                    }
                } else if is_word(chars, start, eq, "wormholes") {
                    match read_number(chars, eq + 1, end, 0, 999) {
                        Some(n) => Ok(CustomRequest { wormholes: n, custom: true, ..self }),
                        None => Err(LevelError::InvalidWormholes),
                    }
                } else {
                    Ok(self)
                }
            },
        }
    }
}

impl Level {
    pub open spec fn spec_mines(self) -> usize {
        match self {
            Level::Small => 15,
            Level::Large => 99,
            Level::LargeWithWormhole => 99,
            Level::Custom { mines, .. } => mines,
        }
    }

    pub open spec fn spec_wormholes(self) -> usize {
        match self {
            Level::Small => 0,
            Level::Large => 0,
            Level::LargeWithWormhole => 99,
            Level::Custom { wormholes, .. } => wormholes,
        }
    }

    pub open spec fn spec_width(self) -> usize {
        match self {
            Level::Small => 8,
            Level::Large => 16,
            Level::LargeWithWormhole => 16,
            Level::Custom { width, .. } => width,
        }
    }

    pub open spec fn spec_height(self) -> usize {
        match self {
            Level::Small => 15,
            Level::Large => 30,
            Level::LargeWithWormhole => 30,
            Level::Custom { height, .. } => height,
        }
    }

    pub open spec fn spec_offset(self) -> Position {
        match self {
            Level::Small => Position { x: 4, y: 7 },
            _ => Position { x: 0, y: 0 },
        }
    }

    pub open spec fn spec_is_custom(self) -> bool {
        self is Custom
    }

    /// A level that a board can be made for: it has cells, no more of them
    /// than coordinates can count, and no more mines and wormholes than cells.
    pub open spec fn valid(self) -> bool {
        &&& 1 <= self.spec_width() <= i32::MAX
        &&& 1 <= self.spec_height() <= i32::MAX
        &&& self.spec_width() * self.spec_height() <= usize::MAX
        &&& self.spec_mines() + self.spec_wormholes() <= self.spec_width() * self.spec_height()
    }

    pub open spec fn spec_board_size(self) -> Size {
        match self {
            Level::Custom { width, height, .. } => Size {
                width: width as u32,
                height: height as u32,
            },
            _ => Size { width: WIDTH as u32, height: HEIGHT as u32 },
        }
    }

    /// The level that the query string `qs` asks for. A text that does not
    /// begin with `?` asks for none; after the `?` come fields with `&`
    /// between them.
    pub open spec fn spec_from_qs(qs: Seq<char>) -> Result<Option<Level>, LevelError> {
        if qs.len() == 0 || qs[0] != '?' {
            Ok(None)
        } else {
            match CustomRequest::initial().apply_all(split(qs.drop_first(), '&')) {
                Ok(request) => request.level(),
                Err(e) => Err(e),
            }
        }
    }

    /// Every level that a query string asks for is a custom level that a
    /// board can be made for, of no more than 64 by 64 cells.
    pub proof fn lemma_from_qs(qs: Seq<char>)
        ensures
            Level::spec_from_qs(qs) matches Ok(Some(level)) ==> level is Custom && level.valid()
                && level.spec_width() <= 64 && level.spec_height() <= 64,
    {
        if qs.len() > 0 && qs[0] == '?' {
            let fields = split(qs.drop_first(), '&');
            CustomRequest::initial().lemma_apply_all(fields);
            if let Ok(request) = CustomRequest::initial().apply_all(fields) {
                assert(request.width * request.height <= 64 * 64) by (nonlinear_arith)
                    requires
                        request.width <= 64,
                        request.height <= 64,
                ;
            }
        }
    }

    /// Reads a custom level from a query string. A level that comes back is
    /// a custom one that a board can be made for.
    pub fn from_qs(qs: &str) -> (r: Result<Option<Level>, LevelError>)
        ensures
            r == Level::spec_from_qs(qs@),
            r matches Ok(Some(level)) ==> level is Custom && level.valid() && level.spec_width()
                <= 64 && level.spec_height() <= 64,
    {
        let chars = chars_of(qs);
        let n: usize = chars.len();
        if n == 0 || chars[0] != '?' {
            return Ok(None);
        }
        let mut request: Result<CustomRequest, LevelError> = Ok(
            CustomRequest { width: 16, height: 30, mines: 99, wormholes: 99, custom: false },
        );
        let ghost mut done: Seq<Seq<char>> = Seq::empty();
        let mut start: usize = 1;
        let mut i: usize = 1;
        assert(chars@.subrange(1, 1) == Seq::<char>::empty());
        assert(seq![Seq::<char>::empty()] == done.push(Seq::<char>::empty()));
        while i < n
            invariant
                1 <= start <= i <= n,
                n == chars.len(),
                split(chars@.subrange(1, i as int), '&') == done.push(
                    chars@.subrange(start as int, i as int),
                ),
                request == CustomRequest::initial().apply_all(done),
                request matches Ok(r) ==> r.in_bounds(),
            decreases n - i,
        {
            proof {
                let head = chars@.subrange(1, i + 1);
                assert(head.drop_last() == chars@.subrange(1, i as int));
                assert(head.last() == chars[i as int]);
            }
            if chars[i] == '&' {
                proof {
                    let piece = chars@.subrange(start as int, i as int);
                    assert(done.push(piece).drop_last() == done);
                    done = done.push(piece);
                }
                request = match request {
                    Ok(r) => r.read(&chars, start, i),
                    Err(e) => Err(e),
                };
                start = i + 1;
                assert(chars@.subrange(start as int, start as int) == Seq::<char>::empty());
            } else {
                assert(chars@.subrange(start as int, i as int).push(chars[i as int])
                    == chars@.subrange(start as int, i + 1));
            }
            i += 1;
        }
        proof {
            let piece = chars@.subrange(start as int, n as int);
            assert(done.push(piece).drop_last() == done);
            assert(chars@.subrange(1, n as int) == qs@.drop_first());
        }
        match request {
            Err(e) => Err(e),
            Ok(r) => match r.read(&chars, start, n) {
                Err(e) => Err(e),
                Ok(r) => {
                    assert(r.width * r.height <= 64 * 64) by (nonlinear_arith)
                        requires
                            r.width <= 64,
                            r.height <= 64,
                    ;
                    if !r.custom {
                        Ok(None)
                    } else if r.mines + r.wormholes <= r.width * r.height {
                        Ok(
                            Some(
                                Level::Custom {
                                    width: r.width,
                                    height: r.height,
                                    mines: r.mines,
                                    wormholes: r.wormholes,
                                },
                            ),
                        )
                    } else {
                        Err(LevelError::TooManyMines)
                    }
                },
            },
        }
    }

    #[verifier::when_used_as_spec(spec_mines)]
    pub fn mines(self) -> (n: usize)
        ensures
            n == self.spec_mines(),
    {
        match self {
            Level::Small => 15,
            Level::Large => 99,
            Level::LargeWithWormhole => 99,
            Level::Custom { mines, .. } => mines,
        }
    }

    #[verifier::when_used_as_spec(spec_wormholes)]
    pub fn wormholes(self) -> (n: usize)
        ensures
            n == self.spec_wormholes(),
    {
        match self {
            Level::Small => 0,
            Level::Large => 0,
            Level::LargeWithWormhole => 99,
            Level::Custom { wormholes, .. } => wormholes,
        }
    }

    #[verifier::when_used_as_spec(spec_width)]
    pub fn width(self) -> (n: usize)
        ensures
            n == self.spec_width(),
    {
        match self {
            Level::Small => 8,
            Level::Large => 16,
            Level::LargeWithWormhole => 16,
            Level::Custom { width, .. } => width,
        }
    }

    #[verifier::when_used_as_spec(spec_height)]
    pub fn height(self) -> (n: usize)
        ensures
            n == self.spec_height(),
    {
        match self {
            Level::Small => 15,
            Level::Large => 30,
            Level::LargeWithWormhole => 30,
            Level::Custom { height, .. } => height,
        }
    }

    /// Where on the board the level's cells begin.
    #[verifier::when_used_as_spec(spec_offset)]
    pub fn offset(self) -> (p: Position)
        ensures
            p == self.spec_offset(),
    {
        match self {
            Level::Small => Position::from_xy(4, 7),
            Level::Large => Position::from_xy(0, 0),
            Level::LargeWithWormhole => Position::from_xy(0, 0),
            Level::Custom { .. } => Position::from_xy(0, 0),
        }
    }

    #[verifier::when_used_as_spec(spec_is_custom)]
    pub fn is_custom(self) -> (b: bool)
        ensures
            b == self.spec_is_custom(),
    {
        match self {
            Level::Custom { .. } => true,
            _ => false,
        }
    }

    /// The size of the whole board, in cells. The presets share one board,
    /// of which the small one fills a part.
    #[verifier::when_used_as_spec(spec_board_size)]
    pub fn board_size(self) -> (s: Size)
        requires
            self.valid(),
        ensures
            s == self.spec_board_size(),
    {
        match self {
            Level::Custom { width, height, .. } => Size::from_wh(width as u32, height as u32),
            _ => Size::from_wh(WIDTH as u32, HEIGHT as u32),
        }
    }
}

impl Default for Level {
    fn default() -> (level: Self)
        ensures
            level == Level::Large,
    {
        Level::Large
    }
}

} // verus!
